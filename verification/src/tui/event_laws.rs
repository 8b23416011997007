//! What each event does: what it adds to the screen, what it asks of the world,
//! and what it leaves as it is.

use crate::ids;
use crate::llama_cpp::provider::ConfigView;
use crate::text;
use crate::tui::app;
use crate::tui::effects::EffectView;
use crate::tui::events::{AgentResponse, Session, TuiEvent};
use crate::tui::message::{ShownView, Stamp, StoredMessage};
use crate::tui::model::{AppMode, AppView, SessionView};
use crate::tui::plan;
use crate::tui::plan::{PlanDocument, PlanStatus, PlanView};
use crate::types;
use vstd::prelude::*;

verus! {

/// Whether a message of `role` says `content` and has nothing else to it.
pub open spec fn says_only(m: ShownView, role: Seq<char>, content: Seq<char>) -> bool {
    m == (ShownView {
        id: m.id,
        role,
        content,
        thinking_text: None,
        thinking_expanded: false,
        timestamp: m.timestamp,
        token_count: None,
        cost: None,
        provider_name: None,
        perf_metrics: None,
        tokens_per_second: None,
    })
}

/// Whether `after` is `before` with one message behind it, of `role`, that says
/// `content`.
pub open spec fn one_more(
    before: Seq<ShownView>,
    after: Seq<ShownView>,
    role: Seq<char>,
    content: Seq<char>,
) -> bool {
    &&& after.len() == before.len() + 1
    &&& forall|i: int| 0 <= i < before.len() ==> #[trigger] after[i] == before[i]
    &&& says_only(after.last(), role, content)
}

/// Whether the session on the screen is `session`.
pub open spec fn shows(v: AppView, session: u128) -> bool {
    v.session is Some && v.session.unwrap().id == session
}

/// A message of the user is shown and goes to the agent, for the session on the
/// screen, which waits from then on. It may only read while a plan is on the
/// screen. Without a session nothing happens.
pub proof fn a_message_goes_to_the_agent(v: AppView, content: String, stamps: Seq<Stamp>)
    ensures
        v.session is None ==> v.on_event(TuiEvent::MessageSubmitted(content), stamps) == (
            v,
            Seq::<EffectView>::empty(),
        ),
        v.session matches Some(s) ==> (!(v.is_processing && v.processing == Some(s.id)) ==> {
            let (w, asked) = v.on_event(TuiEvent::MessageSubmitted(content), stamps);
            &&& one_more(v.messages, w.messages, "user"@, content@)
            &&& w == (AppView {
                messages: w.messages,
                is_processing: true,
                processing: Some(s.id),
                error: None,
                scroll_offset: 0,
                ..v
            })
            &&& asked == seq![
                EffectView::Send {
                    session: s.id,
                    content: content@,
                    read_only: v.mode == AppMode::Plan,
                },
            ]
        }),
{
}

/// The parts of an answer are shown one behind the other, and nothing else
/// changes but that the first part is scrolled to.
pub proof fn parts_of_an_answer_add_up(
    v: AppView,
    session: u128,
    x: String,
    y: String,
    stamps: Seq<Stamp>,
)
    requires
        shows(v, session),
    ensures
        ({
            let (w, asked) = v.on_event(TuiEvent::ResponseChunk(session, x), stamps);
            &&& asked.len() == 0
            &&& v.streaming is None ==> w == (AppView {
                streaming: Some(x@),
                scroll_offset: 0,
                ..v
            })
            &&& v.streaming matches Some(t) ==> w == (AppView { streaming: Some(t + x@), ..v })
            &&& v.streaming is None ==> w.on_event(
                TuiEvent::ResponseChunk(session, y),
                stamps,
            ).0.streaming == Some(x@ + y@)
        }),
{
}

/// Whether `m` is the message in which the answer `r` is shown.
pub open spec fn shows_answer(m: ShownView, r: AgentResponse) -> bool {
    m == (ShownView {
        id: r.message_id,
        role: "assistant"@,
        content: r.content@,
        thinking_text: types::opt_text(r.thinking_text),
        thinking_expanded: false,
        timestamp: m.timestamp,
        token_count: m.token_count,
        cost: Some(r.cost),
        provider_name: Some(r.provider_name@),
        perf_metrics: r.perf_metrics,
        tokens_per_second: r.tokens_per_second,
    }) && (r.input_tokens <= i32::MAX && r.output_tokens <= i32::MAX && r.input_tokens
        + r.output_tokens <= i32::MAX ==> (m.token_count matches Some(n) && n == r.input_tokens
        + r.output_tokens))
}

/// The session with the model and the provider that answered, where it had none.
pub open spec fn told_apart(s: SessionView, r: AgentResponse) -> SessionView {
    SessionView {
        id: s.id,
        title: s.title,
        model: if s.model is Some {
            s.model
        } else {
            Some(r.model@)
        },
        provider: if s.provider is Some {
            s.provider
        } else {
            Some(r.provider_name@)
        },
    }
}

/// An answer is shown with all that is known of it, nothing is outstanding any
/// more, and the session keeps the first model that answered. A plan is looked
/// for afterwards, where none is carried out.
pub proof fn an_answer_is_shown(v: AppView, session: u128, r: AgentResponse, stamps: Seq<Stamp>)
    requires
        shows(v, session),
        !v.executing,
    ensures
        ({
            let (w, asked) = v.on_event(TuiEvent::ResponseComplete(session, r), stamps);
            let s = v.session.unwrap();
            &&& w.messages.len() == v.messages.len() + 1
            &&& forall|i: int| 0 <= i < v.messages.len() ==> #[trigger] w.messages[i]
                == v.messages[i]
            &&& shows_answer(w.messages.last(), r)
            &&& w == (AppView {
                messages: w.messages,
                session: Some(told_apart(s, r)),
                is_processing: false,
                streaming: None,
                processing: None,
                scroll_offset: 0,
                ..v
            })
            &&& s.model is Some && s.provider is Some ==> asked == seq![
                EffectView::FindPlan { session, to_view: false },
            ]
            &&& s.model is None || s.provider is None ==> asked == seq![
                EffectView::SaveSession,
                EffectView::FindPlan { session, to_view: false },
            ]
        }),
{
    let (w, asked) = v.on_event(TuiEvent::ResponseComplete(session, r), stamps);
    let s = v.session.unwrap();
    let find = EffectView::FindPlan { session, to_view: false };
    let none = Seq::<EffectView>::empty();
    if s.model is Some && s.provider is Some {
        assert(none + none + seq![find] =~= seq![find]);
        assert(asked =~= seq![find]);
    } else {
        assert(none + seq![EffectView::SaveSession] + seq![find] =~= seq![
            EffectView::SaveSession,
            find,
        ]);
        assert(asked =~= seq![EffectView::SaveSession, find]);
    }
}

/// While a plan is carried out, an answer is also noted in its current task, and
/// the plan is stored. The next task is asked for, unless this one has failed:
/// then that is said, and nothing more is done.
pub proof fn an_answer_moves_the_plan_on(
    v: AppView,
    session: u128,
    r: AgentResponse,
    stamps: Seq<Stamp>,
)
    requires
        shows(v, session),
        v.executing,
        v.plan is Some,
    ensures
        ({
            let (w, asked) = v.on_event(TuiEvent::ResponseComplete(session, r), stamps);
            let n = v.messages.len() as int;
            let at = stamps[n].timestamp;
            let (next, bad) = plan::with_answer(v.plan.unwrap(), text::lowercase(r.content@), at);
            let s = v.session.unwrap();
            let store = seq![EffectView::SavePlan { session, plan: next }] + (if s.model is Some
                && s.provider is Some {
                Seq::empty()
            } else {
                seq![EffectView::SaveSession]
            });
            &&& w.messages.len() >= n + 1
            &&& forall|i: int| 0 <= i < n ==> #[trigger] w.messages[i] == v.messages[i]
            &&& shows_answer(w.messages[n], r)
            &&& w.messages[n].timestamp == at
            &&& w == (AppView {
                messages: w.messages,
                session: Some(told_apart(s, r)),
                plan: Some(next),
                executing: !bad,
                is_processing: false,
                streaming: None,
                processing: None,
                scroll_offset: 0,
                ..v
            })
            &&& !bad ==> w.messages.len() == n + 1 && asked == store + seq![EffectView::OrderTasks]
            &&& bad ==> {
                &&& w.messages.len() == n + 2
                &&& says_only(
                    w.messages[n + 1],
                    "system"@,
                    "⚠️ Plan execution stopped due to task failure. Review the error above and decide how to proceed."@,
                )
                &&& asked == store
            }
        }),
{
    let (w, asked) = v.on_event(TuiEvent::ResponseComplete(session, r), stamps);
    let n = v.messages.len() as int;
    let at = stamps[n].timestamp;
    let (next, bad) = plan::with_answer(v.plan.unwrap(), text::lowercase(r.content@), at);
    let save = seq![EffectView::SavePlan { session, plan: next }];
    let none = Seq::<EffectView>::empty();
    assert(save + none + none =~= save + none);
    assert(save + seq![EffectView::SaveSession] + none =~= save + seq![EffectView::SaveSession]);
}

/// An error is shown, and nothing is outstanding any more. If a plan is carried
/// out, its current task has failed with that error, the plan is stored, and no
/// more of it is done.
pub proof fn an_error_is_shown(v: AppView, session: u128, error: String, stamps: Seq<Stamp>)
    requires
        shows(v, session),
    ensures
        ({
            let (w, asked) = v.on_event(TuiEvent::Error(session, error), stamps);
            let shown = AppView {
                is_processing: false,
                streaming: None,
                processing: None,
                error: Some(error@),
                scroll_offset: 0,
                ..v
            };
            &&& !v.executing ==> w == shown && asked.len() == 0
            &&& v.executing && v.plan is None ==> w == (AppView { executing: false, ..shown })
                && asked.len() == 0
            &&& v.executing ==> (v.plan matches Some(p) ==> {
                let next = plan::with_failure(p, error@);
                &&& w == (AppView { executing: false, plan: Some(next), ..shown })
                &&& asked == seq![EffectView::SavePlan { session, plan: next }]
            })
        }),
{
}

/// An answer or an error for a session that is not on the screen ends that
/// session's wait, and nothing else; one that is not waited for changes nothing.
pub proof fn the_wait_of_another_session_ends(
    v: AppView,
    session: u128,
    r: AgentResponse,
    error: String,
    stamps: Seq<Stamp>,
)
    requires
        !shows(v, session),
    ensures
        ({
            let answered = v.on_event(TuiEvent::ResponseComplete(session, r), stamps);
            let failed = v.on_event(TuiEvent::Error(session, error), stamps);
            let nothing = Seq::<EffectView>::empty();
            &&& v.processing == Some(session) ==> answered == (
                AppView { processing: None, ..v },
                nothing,
            ) && failed == (AppView { processing: None, ..v }, nothing)
            &&& v.processing != Some(session) ==> answered == (v, nothing) && failed == (v, nothing)
        }),
{
}

/// Time going on turns the frame and nothing else. A request for approval that
/// waited too long is taken off the screen and denied, and that is said.
pub proof fn time_goes_on(v: AppView, stamps: Seq<Stamp>)
    ensures
        ({
            let (w, asked) = v.on_event(TuiEvent::Tick { timed_out: false }, stamps);
            &&& w == (AppView { frame: w.frame, ..v })
            &&& v.frame < usize::MAX ==> w.frame == v.frame + 1
            &&& v.frame == usize::MAX ==> w.frame == 0
            &&& asked.len() == 0
        }),
        ({
            let (w, asked) = v.on_event(TuiEvent::Tick { timed_out: true }, stamps);
            &&& v.approval is None ==> w == (AppView { frame: w.frame, ..v }) && asked.len() == 0
            &&& v.approval matches Some(request) ==> {
                &&& w == (AppView {
                    frame: w.frame,
                    approval: None,
                    mode: AppMode::Chat,
                    error: Some("⏱️  Approval request timed out"@),
                    ..v
                })
                &&& asked == seq![
                    EffectView::Respond {
                        request,
                        approved: false,
                        reason: Some("Approval request timed out after 5 minutes"@),
                    },
                ]
            }
        }),
{
}

/// A request for approval comes on the screen without its details, and leaves it
/// when it was answered. Nothing is answered before the user does.
pub proof fn approval_comes_and_goes(v: AppView, request: u128, stamps: Seq<Stamp>)
    ensures
        v.on_event(TuiEvent::ToolApprovalRequested(request), stamps) == (
            AppView {
                approval: Some(request),
                show_details: false,
                mode: AppMode::ToolApproval,
                ..v
            },
            Seq::<EffectView>::empty(),
        ),
        v.on_event(TuiEvent::ToolApprovalResponse, stamps) == (
            AppView {
                approval: None,
                show_details: false,
                mode: AppMode::Chat,
                scroll_offset: 0,
                ..v
            },
            Seq::<EffectView>::empty(),
        ),
{
}

/// A new session is empty, uses the model in use, and is stored and listed. An
/// answer that is outstanding for another session is not shown for it.
pub proof fn a_new_session_is_empty(v: AppView, s: Session, stamps: Seq<Stamp>)
    ensures
        v.on_event(TuiEvent::SessionCreated(s), stamps) == (
            AppView {
                session: Some(
                    SessionView {
                        id: s.id,
                        title: types::opt_text(s.title),
                        model: Some(v.provider_model),
                        provider: Some(v.provider_name),
                    },
                ),
                messages: Seq::empty(),
                scroll_offset: 0,
                mode: AppMode::Chat,
                is_processing: v.processing == Some(s.id),
                streaming: None,
                ..v
            },
            seq![EffectView::SaveSession, EffectView::ReloadSessions],
        ),
{
}

/// A session that was read is shown with its messages, in their order. The model
/// in use is noted in it only where it has none.
pub proof fn a_session_that_was_read_is_shown(
    v: AppView,
    s: Session,
    stored: Vec<StoredMessage>,
    show_chat: bool,
    stamps: Seq<Stamp>,
)
    ensures
        ({
            let e = TuiEvent::SessionLoaded { session: s, messages: stored, show_chat };
            let (w, asked) = v.on_event(e, stamps);
            &&& w.messages.len() == stored@.len()
            &&& forall|i: int|
                0 <= i < stored@.len() ==> (#[trigger] w.messages[i]) == (ShownView {
                    id: stored@[i].id,
                    role: stored@[i].role@,
                    content: stored@[i].content@,
                    thinking_text: None,
                    thinking_expanded: false,
                    timestamp: stored@[i].created_at,
                    token_count: stored@[i].token_count,
                    cost: stored@[i].cost,
                    provider_name: types::opt_text(stored@[i].provider_name),
                    perf_metrics: stored@[i].perf_metrics,
                    tokens_per_second: None,
                })
            &&& w == (AppView {
                session: Some(
                    SessionView {
                        id: s.id,
                        title: types::opt_text(s.title),
                        model: if s.model is Some {
                            types::opt_text(s.model)
                        } else {
                            Some(v.provider_model)
                        },
                        provider: if s.model is Some {
                            types::opt_text(s.provider)
                        } else {
                            Some(v.provider_name)
                        },
                    },
                ),
                messages: w.messages,
                scroll_offset: 0,
                mode: if show_chat {
                    AppMode::Chat
                } else {
                    v.mode
                },
                is_processing: v.processing == Some(s.id),
                streaming: None,
                ..v
            })
            &&& s.model is Some ==> asked.len() == 0
            &&& s.model is None ==> asked == seq![EffectView::SaveSession]
        }),
{
}

/// When the messages of the session were deleted, none is shown any more, and
/// neither is an error or a part of an answer.
pub proof fn a_cleared_session_is_empty(v: AppView, stamps: Seq<Stamp>)
    ensures
        v.on_event(TuiEvent::MessagesDeleted, stamps) == (
            AppView {
                messages: Seq::empty(),
                scroll_offset: 0,
                streaming: None,
                error: None,
                ..v
            },
            Seq::<EffectView>::empty(),
        ),
{
}

/// The sessions that were listed are the list, in its order.
pub proof fn the_list_of_sessions_is_shown(v: AppView, listed: Vec<Session>, stamps: Seq<Stamp>)
    ensures
        ({
            let (w, asked) = v.on_event(TuiEvent::SessionsListed(listed), stamps);
            &&& w == (AppView { sessions: w.sessions, ..v })
            &&& w.sessions.len() == listed@.len()
            &&& forall|i: int|
                0 <= i < listed@.len() ==> (#[trigger] w.sessions[i]) == (SessionView {
                    id: listed@[i].id,
                    title: types::opt_text(listed@[i].title),
                    model: types::opt_text(listed@[i].model),
                    provider: types::opt_text(listed@[i].provider),
                })
            &&& asked.len() == 0
        }),
{
}

/// Selecting, making and quitting do what they say and nothing else, and so does
/// showing something else; the sessions are read again for their list.
pub proof fn simple_events_do_one_thing(v: AppView, id: u128, mode: AppMode, stamps: Seq<Stamp>)
    ensures
        v.on_event(TuiEvent::SelectSession(id), stamps) == (
            v,
            seq![EffectView::LoadSession { id, show_chat: false }],
        ),
        v.on_event(TuiEvent::NewSession, stamps) == (
            v,
            seq![EffectView::CreateSession { title: "New Chat"@ }],
        ),
        v.on_event(TuiEvent::Quit, stamps) == (
            AppView { should_quit: true, ..v },
            Seq::<EffectView>::empty(),
        ),
        v.on_event(TuiEvent::SwitchMode(mode), stamps).0 == (AppView { mode, ..v }),
        mode == AppMode::Sessions ==> v.on_event(TuiEvent::SwitchMode(mode), stamps).1 == seq![
            EffectView::ReloadSessions,
        ],
        mode != AppMode::Sessions ==> v.on_event(TuiEvent::SwitchMode(mode), stamps).1.len() == 0,
        v.on_event(TuiEvent::Resize(0, 0), stamps) == (v, Seq::<EffectView>::empty()),
        v.on_event(TuiEvent::AgentProcessing, stamps) == (v, Seq::<EffectView>::empty()),
{
}

/// When the application starts, the session used last is read, or else one is
/// made; and the sessions are listed.
pub proof fn it_starts_with_a_session(v: AppView, id: u128)
    ensures
        v.started(Some(id)) == (
            v,
            seq![EffectView::LoadSession { id, show_chat: false }, EffectView::ReloadSessions],
        ),
        v.started(None) == (
            v,
            seq![EffectView::CreateSession { title: "New Chat"@ }, EffectView::ReloadSessions],
        ),
{
}

/// A plan that is in the database is shown where it was asked for; otherwise it
/// is offered if it waits for approval and there is no other. What is not there
/// is looked for in the file of the session.
pub proof fn a_plan_in_the_database_counts_first(
    v: AppView,
    s: SessionView,
    p: PlanDocument,
    stamps: Seq<Stamp>,
)
    requires
        v.session == Some(s),
    ensures
        v.on_event(TuiEvent::PlanInDatabase { to_view: true, plan: Some(p) }, stamps) == (
            AppView { plan: Some(p@), mode: AppMode::Plan, ..v },
            Seq::<EffectView>::empty(),
        ),
        ({
            let e = TuiEvent::PlanInDatabase { to_view: false, plan: Some(p) };
            let (w, asked) = v.on_event(e, stamps);
            &&& asked.len() == 0
            &&& v.plan is Some || p.status != PlanStatus::PendingApproval ==> w == v
            &&& v.plan is None && p.status == PlanStatus::PendingApproval ==> {
                &&& w == (AppView { plan: Some(p@), messages: w.messages, ..v })
                &&& one_more(v.messages, w.messages, "system"@, plan::ready_text(p@))
            }
        }),
        forall|to_view: bool|
            #[trigger]
            v.on_event(TuiEvent::PlanInDatabase { to_view, plan: None }, stamps) == (
                v,
                seq![
                    EffectView::ReadPlanFile {
                        file_name: ".crustly_plan_"@ + ids::uuid_digits(s.id) + ".json"@,
                        to_view,
                    },
                ],
            ),
{
}

/// A plan that is found in a file is stored in the database when it is shown or
/// offered. Where there is none, that is said if one was to be shown.
pub proof fn a_plan_in_a_file_is_moved(v: AppView, p: PlanDocument, stamps: Seq<Stamp>)
    ensures
        v.on_event(TuiEvent::PlanInFile { to_view: true, plan: Some(p) }, stamps) == (
            AppView { plan: Some(p@), mode: AppMode::Plan, ..v },
            seq![EffectView::MigratePlan { plan: p@ }],
        ),
        ({
            let e = TuiEvent::PlanInFile { to_view: false, plan: Some(p) };
            let (w, asked) = v.on_event(e, stamps);
            &&& p.status != PlanStatus::PendingApproval ==> w == v && asked.len() == 0
            &&& p.status == PlanStatus::PendingApproval ==> asked == seq![
                EffectView::MigratePlan { plan: p@ },
            ]
            &&& p.status == PlanStatus::PendingApproval && v.plan is Some ==> w == v
            &&& p.status == PlanStatus::PendingApproval && v.plan is None ==> {
                &&& w == (AppView { plan: Some(p@), messages: w.messages, ..v })
                &&& one_more(v.messages, w.messages, "system"@, plan::ready_text(p@))
            }
        }),
        v.on_event(TuiEvent::PlanInFile { to_view: false, plan: None }, stamps) == (
            v,
            Seq::<EffectView>::empty(),
        ),
        ({
            let (w, asked) = v.on_event(TuiEvent::PlanInFile { to_view: true, plan: None }, stamps);
            &&& asked.len() == 0
            &&& v.plan is Some ==> w == (AppView { mode: AppMode::Plan, ..v })
            &&& v.plan is None ==> w == (AppView {
                error: Some("No plan available. Create a plan first."@),
                ..v
            })
        }),
{
}

/// Without a session a plan is only shown if it is there already. Without a plan
/// nothing is carried out.
pub proof fn without_a_session_or_a_plan_little_happens(
    v: AppView,
    order: Option<Vec<usize>>,
    stamps: Seq<Stamp>,
)
    ensures
        v.session is None ==> {
            let nothing = Seq::<EffectView>::empty();
            let (w, asked) = v.on_event(
                TuiEvent::PlanInDatabase { to_view: true, plan: None },
                stamps,
            );
            &&& v.on_event(TuiEvent::PlanInDatabase { to_view: false, plan: None }, stamps) == (
                v,
                nothing,
            )
            &&& v.plan is Some ==> w == (AppView { mode: AppMode::Plan, ..v })
            &&& v.plan is None ==> w == (AppView {
                error: Some("No plan available. Create a plan first."@),
                ..v
            })
            &&& asked.len() == 0
        },
        v.plan is None ==> v.on_event(TuiEvent::TasksOrdered(order), stamps) == (
            AppView { executing: false, ..v },
            Seq::<EffectView>::empty(),
        ),
        v.plan is None ==> v.on_event(TuiEvent::PlanExported, stamps).0 == (AppView {
            mode: AppMode::Chat,
            executing: false,
            ..v
        }) && v.on_event(TuiEvent::PlanExported, stamps).1.len() == 0,
{
}

/// Tasks that depend on each other in a circle stop the plan, and that is shown.
pub proof fn a_circle_is_shown(v: AppView, stamps: Seq<Stamp>)
    requires
        v.plan is Some,
    ensures
        ({
            let (w, asked) = v.on_event(TuiEvent::TasksOrdered(None), stamps);
            &&& w == (AppView {
                executing: false,
                is_processing: false,
                streaming: None,
                processing: None,
                error: w.error,
                scroll_offset: 0,
                ..v
            })
            &&& w.error is Some
            &&& asked.len() == 0
        }),
{
}

/// The tokens of messages are added up, one message after the other. A message of
/// which they are not known adds none.
pub proof fn tokens_add_up(x: Seq<ShownView>, y: Seq<ShownView>, m: ShownView)
    ensures
        app::token_sum(x + y) == app::token_sum(x) + app::token_sum(y),
        app::token_sum(seq![m]) == (match m.token_count {
            Some(n) => n as int,
            None => 0,
        }),
        app::token_sum(Seq::empty()) == 0,
    decreases y.len(),
{
    let none = Seq::<ShownView>::empty();
    assert(seq![m].drop_last() =~= none);
    assert(app::token_sum(none) == 0);
    if y.len() == 0 {
        assert(x + y =~= x);
    } else {
        tokens_add_up(x, y.drop_last(), m);
        assert((x + y).drop_last() =~= x + y.drop_last());
        assert((x + y).last() == y.last());
    }
}

/// Details are read from the model file in use, or else from the configured one,
/// and only where a model file is what answers.
pub proof fn details_are_of_the_file_in_use(v: AppView, c: ConfigView, path: Seq<char>)
    ensures
        v.provider_name == "llama-cpp"@ && v.config == Some(c) && v.active_path == Some(path)
            ==> app::details_path(v) == Some(path),
        v.provider_name == "llama-cpp"@ && v.config == Some(c) && v.active_path is None
            ==> app::details_path(v) == Some(c.model_path),
        v.provider_name != "llama-cpp"@ || v.config is None ==> app::details_path(v) is None,
{
}

/// An approved plan that was written is stored, the chat comes on the screen,
/// and its first task is asked for.
pub proof fn an_exported_plan_is_carried_out(
    v: AppView,
    p: PlanView,
    s: SessionView,
    stamps: Seq<Stamp>,
)
    requires
        v.plan == Some(p),
        v.session == Some(s),
    ensures
        v.on_event(TuiEvent::PlanExported, stamps) == (
            AppView { mode: AppMode::Chat, executing: true, ..v },
            seq![EffectView::SavePlan { session: s.id, plan: p }, EffectView::OrderTasks],
        ),
{
    let save = EffectView::SavePlan { session: s.id, plan: p };
    assert(seq![save] + seq![EffectView::OrderTasks] =~= seq![save, EffectView::OrderTasks]);
}

/// When the tasks were put in order, the next one is started: the plan is stored
/// with it, and the agent is asked for it, as for any message of the user. Where
/// no task is left the plan is completed, stored, and no more is done.
pub proof fn the_next_task_is_sent(
    v: AppView,
    p: PlanView,
    s: SessionView,
    order: Vec<usize>,
    stamps: Seq<Stamp>,
)
    requires
        v.plan == Some(p),
        v.session == Some(s),
        !(v.is_processing && v.processing == Some(s.id)),
    ensures
        ({
            let (w, asked) = v.on_event(TuiEvent::TasksOrdered(Some(order)), stamps);
            match plan::with_next_started(p, order@) {
                Some((next, request)) => {
                    &&& w == (AppView {
                        plan: Some(next),
                        messages: w.messages,
                        is_processing: true,
                        processing: Some(s.id),
                        error: None,
                        scroll_offset: 0,
                        ..v
                    })
                    &&& one_more(v.messages, w.messages, "user"@, request)
                    &&& asked == seq![
                        EffectView::SavePlan { session: s.id, plan: next },
                        EffectView::Send {
                            session: s.id,
                            content: request,
                            read_only: v.mode == AppMode::Plan,
                        },
                    ]
                },
                None => {
                    let done = PlanView { status: PlanStatus::Completed, ..p };
                    &&& w == (AppView {
                        plan: Some(done),
                        messages: w.messages,
                        executing: false,
                        ..v
                    })
                    &&& one_more(v.messages, w.messages, "system"@, plan::done_text(p))
                    &&& asked == seq![EffectView::SavePlan { session: s.id, plan: done }]
                },
            }
        }),
{
    let (w, asked) = v.on_event(TuiEvent::TasksOrdered(Some(order)), stamps);
    if let Some((next, request)) = plan::with_next_started(p, order@) {
        let save = EffectView::SavePlan { session: s.id, plan: next };
        let send = EffectView::Send {
            session: s.id,
            content: request,
            read_only: v.mode == AppMode::Plan,
        };
        assert(seq![save] + seq![send] =~= seq![save, send]);
    }
}

/// What a skill asks of the agent is sent, with the arguments behind it where
/// there are any. What names no skill is sent as it is.
pub proof fn a_skill_is_sent(
    v: AppView,
    content: String,
    arguments: String,
    asks: String,
    stamps: Seq<Stamp>,
)
    ensures
        arguments@.len() == 0 ==> v.on_event(
            TuiEvent::SkillResolved { content, arguments, prompt: Some(asks) },
            stamps,
        ) == v.sent(asks@, stamps),
        arguments@.len() > 0 ==> v.on_event(
            TuiEvent::SkillResolved { content, arguments, prompt: Some(asks) },
            stamps,
        ) == v.sent(asks@ + "\n\nAdditional arguments: "@ + arguments@, stamps),
        v.on_event(TuiEvent::SkillResolved { content, arguments, prompt: None }, stamps) == v.sent(
            content@,
            stamps,
        ),
{
}

/// What could not be copied or read is said, and nothing else changes.
pub proof fn clipboard_errors_are_shown(v: AppView, error: String, stamps: Seq<Stamp>)
    ensures
        v.on_event(TuiEvent::CopyFailed(error), stamps) == (
            AppView { error: Some("Couldn't copy to clipboard: "@ + error@), ..v },
            Seq::<EffectView>::empty(),
        ),
        v.on_event(TuiEvent::ClipboardFailed(error), stamps) == (
            AppView { error: Some("Couldn't read clipboard: "@ + error@), ..v },
            Seq::<EffectView>::empty(),
        ),
{
}

} // verus!
