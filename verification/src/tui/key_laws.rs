//! What each key does where it is pressed.

use crate::text;
use crate::tui::dialogs;
use crate::tui::effects::EffectView;
use crate::tui::events::TuiEvent;
use crate::tui::input;
use crate::tui::input::InputView;
use crate::tui::keys::{Bindings, KeyCode, KeyPress};
use crate::tui::message::{ShownView, Stamp};
use crate::tui::model;
use crate::tui::model::{AppMode, AppView};
use crate::tui::plan;
use crate::tui::plan::{PlanStatus, PlanView};
use vstd::prelude::*;

verus! {

/// Whether a key that was pressed means the same wherever it is.
pub open spec fn works_everywhere(k: KeyPress) -> bool {
    k.bound.quit || k.bound.new_session || k.bound.list_sessions || k.bound.help
        || k.bound.clear_session || k.bound.toggle_plan || k.bound.toggle_auto_mode
}

/// Whether a key opens a dialog from the chat.
pub open spec fn opens_a_dialog(k: KeyPress) -> bool {
    k.bound.model_download || k.bound.model_info || k.bound.provider_switch
        || k.bound.llama_cpp_models
}

/// Whether a key that was pressed in the chat is for the chat.
pub open spec fn is_for_the_chat(v: AppView, k: KeyPress) -> bool {
    k.pressed && v.mode == AppMode::Chat && !works_everywhere(k) && !opens_a_dialog(k)
}

/// Whether a key that was pressed is for what is on the screen, which is not the
/// chat.
pub open spec fn is_for(v: AppView, mode: AppMode, k: KeyPress) -> bool {
    k.pressed && v.mode == mode && mode != AppMode::Chat && !works_everywhere(k)
}

/// No effects.
pub open spec fn nothing() -> Seq<EffectView> {
    Seq::empty()
}

/// The keys that work everywhere do one thing each.
pub proof fn keys_that_work_everywhere(v: AppView, k: KeyPress, stamps: Seq<Stamp>)
    requires
        k.pressed,
    ensures
        ({
            let done = v.on_event(TuiEvent::Key(k), stamps);
            let b = k.bound;
            &&& b.quit ==> done == (AppView { should_quit: true, ..v }, nothing())
            &&& !b.quit && b.new_session ==> done == (
                v,
                seq![EffectView::CreateSession { title: "New Chat"@ }],
            )
            &&& !b.quit && !b.new_session && b.list_sessions ==> done == (
                AppView { mode: AppMode::Sessions, ..v },
                seq![EffectView::ReloadSessions],
            )
            &&& !b.quit && !b.new_session && !b.list_sessions && b.help ==> done == (
                AppView { mode: AppMode::Help, ..v },
                nothing(),
            )
            &&& !b.quit && !b.new_session && !b.list_sessions && !b.help && b.clear_session ==> {
                &&& v.session is None && !(v.is_processing && v.processing is None) ==> done == (
                    v,
                    nothing(),
                )
                &&& v.session matches Some(s) ==> done == (if v.is_processing && v.processing
                    == Some(s.id) {
                    (
                        AppView {
                            error: Some("⏳ Wait for the response to finish before clearing."@),
                            ..v
                        },
                        nothing(),
                    )
                } else {
                    (v, seq![EffectView::DeleteMessages { session: s.id }])
                })
            }
            &&& !b.quit && !b.new_session && !b.list_sessions && !b.help && !b.clear_session
                && b.toggle_plan ==> {
                &&& v.mode == AppMode::Plan ==> done == (
                    AppView { mode: AppMode::Chat, ..v },
                    nothing(),
                )
                &&& v.mode != AppMode::Plan && v.mode != AppMode::Chat ==> done == (v, nothing())
                &&& v.mode == AppMode::Chat ==> (v.session matches Some(s) ==> done == (
                    v,
                    seq![EffectView::FindPlan { session: s.id, to_view: true }],
                ))
            }
        }),
{
}

/// A key that is bound to nothing and is none of the known ones does nothing,
/// whatever is on the screen.
pub proof fn an_unbound_key_does_nothing(v: AppView, k: KeyPress, stamps: Seq<Stamp>)
    requires
        k.bound == Bindings::unbound(),
        k.code == KeyCode::Other,
    ensures
        v.on_event(TuiEvent::Key(k), stamps) == (v, nothing()),
{
}

/// Outside of the chat the keys that open a dialog open none: they are taken by
/// what is on the screen, as if they were not bound to that.
pub proof fn dialogs_do_not_open_from_elsewhere(v: AppView, k: KeyPress, stamps: Seq<Stamp>)
    requires
        k.pressed,
        v.mode != AppMode::Chat,
        !works_everywhere(k),
    ensures
        v.on_event(TuiEvent::Key(k), stamps).0.mode == v.mode || v.on_event(
            TuiEvent::Key(k),
            stamps,
        ).0.mode == AppMode::Chat,
{
}

/// From the chat, and only from there, the dialogs are opened, each as if for the
/// first time; what they show is asked for.
pub proof fn dialogs_open_from_the_chat(v: AppView, k: KeyPress, stamps: Seq<Stamp>)
    requires
        k.pressed,
        v.mode == AppMode::Chat,
        !works_everywhere(k),
    ensures
        ({
            let (w, asked) = v.on_event(TuiEvent::Key(k), stamps);
            let b = k.bound;
            &&& b.model_download ==> {
                &&& w == (AppView { download: w.download, mode: AppMode::ModelDownload, ..v })
                &&& w.download.input.len() == 0
                &&& w.download.selected == 0
                &&& w.download.suggestions == v.download.suggestions
                &&& w.download.installed == v.download.installed
                &&& !w.download.running
                &&& w.download.status is None
                &&& w.download.fraction is None
                &&& w.download.confirm_delete is None
                &&& w.download.deleting is None
                &&& asked == seq![
                    EffectView::FilterSuggestions,
                    EffectView::FetchInstalled { for_switch: false },
                ]
            }
            &&& !b.model_download && b.model_info ==> w == (AppView {
                mode: AppMode::ModelInfo,
                ..v
            }) && asked.len() == 0
            &&& !b.model_download && !b.model_info && b.provider_switch ==> {
                &&& w == (AppView { switch: w.switch, mode: AppMode::ProviderSwitch, ..v })
                &&& w.switch.models.len() == 0
                &&& w.switch.selected == 0
                &&& w.switch.loading
                &&& asked == seq![EffectView::FetchInstalled { for_switch: true }]
            }
            &&& !b.model_download && !b.model_info && !b.provider_switch && b.llama_cpp_models ==> {
                &&& w == (AppView { local: w.local, mode: AppMode::LlamaCppModelPicker, ..v })
                &&& w.local.input.len() == 0
                &&& w.local.selected == 0
                &&& w.local.models == v.local.models
                &&& w.local.loading
                &&& !w.local.running
                &&& w.local.status is None
                &&& w.local.fraction is None
                &&& w.local.confirm_delete is None
                &&& w.local.deleting is None
                &&& w.local.switching == v.local.switching
                &&& w.local.hardware == v.local.hardware
                &&& v.local.hardware is None && !v.local.hardware_loading
                    ==> w.local.hardware_loading && asked == seq![
                    EffectView::ListLocalModels,
                    EffectView::DetectHardware,
                ]
                &&& v.local.hardware is Some || v.local.hardware_loading
                    ==> w.local.hardware_loading == v.local.hardware_loading && asked == seq![
                    EffectView::ListLocalModels,
                ]
            }
        }),
{
}

/// A line that is submitted is remembered and leaves the input empty; what it
/// says is then taken as a command or sent. A blank input is not submitted.
pub proof fn a_submitted_line_is_remembered(v: AppView, k: KeyPress, stamps: Seq<Stamp>)
    requires
        is_for_the_chat(v, k),
        k.bound.submit,
        exists|i: int|
            0 <= i < v.input.lines.len() && text::trimmed(#[trigger] v.input.lines[i]).len() > 0,
    ensures
        ({
            let said = text::joined(v.input.lines, seq!['\n']);
            let emptied = AppView {
                input: InputView {
                    lines: seq![Seq::empty()],
                    cursor: (0int, 0int),
                    history: if v.input.history.len() > 0 && v.input.history.last() == said {
                        v.input.history
                    } else {
                        v.input.history.push(said)
                    },
                    position: None,
                    draft: None,
                },
                ..v
            };
            v.on_event(TuiEvent::Key(k), stamps) == emptied.commanded(said, stamps)
        }),
{
}

/// A blank input is not submitted: nothing is sent and nothing is remembered.
pub proof fn a_blank_input_is_not_submitted(v: AppView, k: KeyPress, stamps: Seq<Stamp>)
    requires
        is_for_the_chat(v, k),
        k.bound == (Bindings { submit: true, ..Bindings::unbound() }),
        k.code == KeyCode::Enter,
        forall|i: int|
            0 <= i < v.input.lines.len() ==> text::trimmed(#[trigger] v.input.lines[i]).len() == 0,
    ensures
        v.on_event(TuiEvent::Key(k), stamps) == (v, nothing()),
{
}

/// The key for it cuts the line at the cursor, also where it would submit a blank
/// input, and does nothing else.
pub proof fn a_line_is_cut_at_the_cursor(v: AppView, k: KeyPress, stamps: Seq<Stamp>)
    requires
        is_for_the_chat(v, k),
        k.bound.newline,
        !k.bound.submit,
        v.input.wf(),
    ensures
        ({
            let (w, asked) = v.on_event(TuiEvent::Key(k), stamps);
            let (row, col) = v.input.cursor;
            let line = v.input.lines[row];
            &&& asked.len() == 0
            &&& w == (AppView { input: w.input, ..v })
            &&& w.input == (InputView {
                lines: w.input.lines,
                cursor: (row + 1, 0int),
                ..v.input
            })
            &&& w.input.lines.len() == v.input.lines.len() + 1
            &&& w.input.lines[row] == line.take(col)
            &&& w.input.lines[row + 1] == line.skip(col)
            &&& forall|i: int| 0 <= i < row ==> #[trigger] w.input.lines[i] == v.input.lines[i]
            &&& forall|i: int|
                row < i < v.input.lines.len() ==> w.input.lines[i + 1] == #[trigger] v.input.lines[i]
        }),
{
    let w = v.on_event(TuiEvent::Key(k), stamps).0;
    let (row, col) = v.input.cursor;
    let line = v.input.lines[row];
    let none = Seq::<char>::empty();
    assert(line.take(col) + none =~= line.take(col));
    assert(none + line.skip(col) =~= line.skip(col));
    assert(seq![none, none].last() == none);
    let two = seq![none, none];
    assert(two.subrange(1, 1) =~= Seq::empty());
    assert(w.input.lines =~= v.input.lines.take(row).push(line.take(col)).push(line.skip(col))
        + v.input.lines.skip(row + 1));
}

/// Without a session the key for the plan shows the one that is there, or says
/// that there is none.
pub proof fn the_plan_is_shown_without_a_session(v: AppView, k: KeyPress, stamps: Seq<Stamp>)
    requires
        k.pressed,
        k.bound == (Bindings { toggle_plan: true, ..Bindings::unbound() }),
        v.mode == AppMode::Chat,
        v.session is None,
    ensures
        v.plan is Some ==> v.on_event(TuiEvent::Key(k), stamps) == (
            AppView { mode: AppMode::Plan, ..v },
            nothing(),
        ),
        v.plan is None ==> v.on_event(TuiEvent::Key(k), stamps) == (
            AppView { error: Some("No plan available. Create a plan first."@), ..v },
            nothing(),
        ),
{
}

/// A key in a dialog goes to that dialog and to no other. The chat comes back when
/// the dialog closes, and what it asks for is asked for.
pub proof fn dialogs_take_their_own_keys(v: AppView, k: KeyPress, stamps: Seq<Stamp>)
    ensures
        ({
            let (w, asked) = v.on_event(TuiEvent::Key(k), stamps);
            &&& is_for(v, AppMode::ModelDownload, k) ==> {
                let (d, r) = v.download.on_key(k);
                &&& w == (AppView { download: d, mode: w.mode, ..v })
                &&& w.mode == (if r.close {
                    AppMode::Chat
                } else {
                    AppMode::ModelDownload
                })
                &&& asked == r.effects
            }
            &&& is_for(v, AppMode::ProviderSwitch, k) ==> {
                let (d, r) = v.switch.on_key(k);
                &&& w == (AppView { switch: d, mode: w.mode, ..v })
                &&& w.mode == (if r.close {
                    AppMode::Chat
                } else {
                    AppMode::ProviderSwitch
                })
                &&& asked == r.effects
            }
            &&& is_for(v, AppMode::LlamaCppModelPicker, k) ==> {
                let (d, r) = v.local.on_key(k);
                &&& w == (AppView { local: d, mode: w.mode, ..v })
                &&& w.mode == (if r.close {
                    AppMode::Chat
                } else {
                    AppMode::LlamaCppModelPicker
                })
                &&& asked == r.effects
            }
            &&& is_for(v, AppMode::FilePicker, k) ==> {
                let (d, r) = v.picker.on_key(k);
                &&& w == (AppView { picker: d, mode: w.mode, ..v })
                &&& w.mode == (if r.close {
                    AppMode::Chat
                } else {
                    AppMode::FilePicker
                })
                &&& asked == r.effects
            }
        }),
{
}

/// In the chat, cancelling empties the input and takes the error off the screen;
/// the page keys scroll by ten, at most to the ends; the last response is copied;
/// and the clipboard is read.
pub proof fn chat_keys_do_one_thing(v: AppView, k: KeyPress, stamps: Seq<Stamp>)
    requires
        is_for_the_chat(v, k),
        !k.bound.submit,
        !k.bound.newline,
    ensures
        ({
            let (w, asked) = v.on_event(TuiEvent::Key(k), stamps);
            let b = k.bound;
            let n = v.scroll_offset;
            &&& b.cancel ==> w == (AppView {
                error: None,
                input: InputView { lines: seq![Seq::empty()], cursor: (0int, 0int), ..v.input },
                ..v
            }) && asked.len() == 0
            &&& !b.cancel && b.page_up ==> {
                &&& w == (AppView { scroll_offset: w.scroll_offset, ..v })
                &&& n <= usize::MAX - 10 ==> w.scroll_offset == n + 10
                &&& n > usize::MAX - 10 ==> w.scroll_offset == usize::MAX
                &&& asked.len() == 0
            }
            &&& !b.cancel && !b.page_up && b.page_down ==> {
                &&& w == (AppView { scroll_offset: w.scroll_offset, ..v })
                &&& n >= 10 ==> w.scroll_offset == n - 10
                &&& n < 10 ==> w.scroll_offset == 0
                &&& asked.len() == 0
            }
            &&& !b.cancel && !b.page_up && !b.page_down && !b.copy_response && b.paste_clipboard
                ==> w == v && asked == seq![EffectView::ReadClipboard]
        }),
{
}

proof fn lemma_last_assistant(m: Seq<ShownView>)
    ensures
        match model::last_assistant(m) {
            Some(i) => 0 <= i < m.len() && m[i].role == "assistant"@ && forall|j: int|
                i < j < m.len() ==> (#[trigger] m[j]).role != "assistant"@,
            None => forall|j: int| 0 <= j < m.len() ==> (#[trigger] m[j]).role != "assistant"@,
        },
    decreases m.len(),
{
    if m.len() > 0 && m.last().role != "assistant"@ {
        lemma_last_assistant(m.drop_last());
        assert forall|j: int| 0 <= j < m.len() - 1 implies #[trigger] m[j] == m.drop_last()[j] by {}
    }
}

proof fn lemma_last_thinking(m: Seq<ShownView>)
    ensures
        match model::last_thinking(m) {
            Some(i) => 0 <= i < m.len() && m[i].role == "assistant"@ && m[i].thinking_text is Some
                && forall|j: int|
                i < j < m.len() ==> (#[trigger] m[j]).role != "assistant"@ || m[j].thinking_text
                    is None,
            None => forall|j: int|
                0 <= j < m.len() ==> (#[trigger] m[j]).role != "assistant"@ || m[j].thinking_text
                    is None,
        },
    decreases m.len(),
{
    if m.len() > 0 && !(m.last().role == "assistant"@ && m.last().thinking_text is Some) {
        lemma_last_thinking(m.drop_last());
        assert forall|j: int| 0 <= j < m.len() - 1 implies #[trigger] m[j] == m.drop_last()[j] by {}
    }
}

/// The response that is copied is the last one, as it is. Where there is none,
/// that is said.
pub proof fn the_last_response_is_copied(v: AppView, k: KeyPress, stamps: Seq<Stamp>, i: int)
    requires
        is_for_the_chat(v, k),
        k.bound.copy_response,
        !k.bound.submit,
        !k.bound.newline,
        !k.bound.cancel,
        !k.bound.page_up,
        !k.bound.page_down,
    ensures
        0 <= i < v.messages.len() && v.messages[i].role == "assistant"@ && (forall|j: int|
            i < j < v.messages.len() ==> (#[trigger] v.messages[j]).role != "assistant"@)
            ==> v.on_event(TuiEvent::Key(k), stamps) == (
            v,
            seq![EffectView::CopyResponse { content: v.messages[i].content }],
        ),
        (forall|j: int|
            0 <= j < v.messages.len() ==> (#[trigger] v.messages[j]).role != "assistant"@)
            ==> v.on_event(TuiEvent::Key(k), stamps) == (
            AppView { error: Some("No response to copy yet."@), ..v },
            nothing(),
        ),
{
    lemma_last_assistant(v.messages);
    if 0 <= i < v.messages.len() && v.messages[i].role == "assistant"@ && (forall|j: int|
        i < j < v.messages.len() ==> (#[trigger] v.messages[j]).role != "assistant"@) {
        let k = model::last_assistant(v.messages);
        if k is Some && k.unwrap() > i {
            assert(v.messages[k.unwrap()].role != "assistant"@);
        }
        assert(k == Some(i));
    }
}

/// The reasoning of the last response that has some is shown or hidden, and
/// nothing else changes; twice changes nothing.
pub proof fn reasoning_is_shown_and_hidden(v: AppView, i: int)
    requires
        0 <= i < v.messages.len(),
        v.messages[i].role == "assistant"@,
        v.messages[i].thinking_text is Some,
        forall|j: int|
            i < j < v.messages.len() ==> (#[trigger] v.messages[j]).role != "assistant"@
                || v.messages[j].thinking_text is None,
    ensures
        ({
            let w = v.thinking_toggled();
            &&& w == (AppView { messages: w.messages, ..v })
            &&& w.messages.len() == v.messages.len()
            &&& w.messages[i] == (ShownView {
                thinking_expanded: !v.messages[i].thinking_expanded,
                ..v.messages[i]
            })
            &&& forall|j: int|
                0 <= j < v.messages.len() && j != i ==> #[trigger] w.messages[j] == v.messages[j]
        }),
        v.thinking_toggled().thinking_toggled() == v,
{
    lemma_last_thinking(v.messages);
    let a = model::last_thinking(v.messages);
    if a is Some && a.unwrap() > i {
        assert(v.messages[a.unwrap()].thinking_text is None || v.messages[a.unwrap()].role
            != "assistant"@);
    }
    assert(a == Some(i));
    let w = v.thinking_toggled();
    lemma_last_thinking(w.messages);
    let b = model::last_thinking(w.messages);
    if b is Some && b.unwrap() > i {
        assert(w.messages[b.unwrap()] == v.messages[b.unwrap()]);
    }
    assert(w.messages[i].thinking_text is Some);
    assert(b == Some(i));
    assert(w.thinking_toggled().messages =~= v.messages);
}

/// A key in the chat that is bound to nothing there edits the input.
pub proof fn other_keys_edit_the_input(v: AppView, k: KeyPress, stamps: Seq<Stamp>)
    requires
        is_for_the_chat(v, k),
        !k.bound.submit,
        !k.bound.newline,
        !k.bound.cancel,
        !k.bound.page_up,
        !k.bound.page_down,
        !k.bound.copy_response,
        !k.bound.paste_clipboard,
    ensures
        v.on_event(TuiEvent::Key(k), stamps) == v.edit_key(k),
{
}

/// An `@` lists the files of the picker's directory, and a `t` in an empty input
/// shows or hides the last reasoning. With control and alt, and anywhere else,
/// they are characters like any other.
pub proof fn two_characters_mean_more(v: AppView, k: KeyPress)
    ensures
        !(k.ctrl && k.alt) && k.code == KeyCode::Char('@') ==> v.edit_key(k) == (
            v,
            seq![EffectView::ListDirectory { path: v.picker.current_dir }],
        ),
        !(k.ctrl && k.alt) && k.code == KeyCode::Char('t') && v.input.lines == seq![
            Seq::<char>::empty(),
        ] ==> v.edit_key(k) == (v.thinking_toggled(), nothing()),
        k.code != KeyCode::Char('@') && k.code != KeyCode::Char('t') || (k.ctrl && k.alt)
            || k.code == KeyCode::Char('t') && v.input.lines != seq![Seq::<char>::empty()]
            ==> v.edit_key(k) == (AppView { input: v.input.edited(k), ..v }, nothing()),
{
}

/// Going through a list moves by one entry and stays in the list.
pub proof fn lists_are_gone_through(selected: usize, step: nat, len: nat)
    requires
        len <= usize::MAX,
    ensures
        selected > 0 ==> dialogs::above(selected) == selected - 1,
        selected == 0 ==> dialogs::above(selected) == 0,
        selected + step < len ==> dialogs::below(selected, step, len) == selected + step,
        len > 0 && selected + step >= len ==> dialogs::below(selected, step, len) == len - 1,
        len == 0 ==> dialogs::below(selected, step, len) == 0,
{
}

/// In the list of sessions the selected one is loaded and shown; up and down
/// select another, and cancelling goes back to the chat.
pub proof fn a_session_is_chosen(v: AppView, k: KeyPress, stamps: Seq<Stamp>)
    requires
        is_for(v, AppMode::Sessions, k),
    ensures
        ({
            let done = v.on_event(TuiEvent::Key(k), stamps);
            let b = k.bound;
            let n = v.selected_session;
            &&& b.cancel ==> done == (AppView { mode: AppMode::Chat, ..v }, nothing())
            &&& !b.cancel && b.up ==> done == (
                AppView { selected_session: dialogs::above(n), ..v },
                nothing(),
            )
            &&& !b.cancel && !b.up && b.down ==> done == (
                AppView { selected_session: dialogs::below(n, 1, v.sessions.len()), ..v },
                nothing(),
            )
            &&& !b.cancel && !b.up && !b.down && b.enter && n < v.sessions.len() ==> done == (
                v,
                seq![EffectView::LoadSession { id: v.sessions[n as int].id, show_chat: true }],
            )
            &&& !b.cancel && !b.up && !b.down && (!b.enter || n >= v.sessions.len()) ==> done == (
                v,
                nothing(),
            )
        }),
{
}

/// The lists of skills and of servers are gone through and left, and nothing
/// else.
pub proof fn lists_are_only_looked_at(v: AppView, k: KeyPress, stamps: Seq<Stamp>)
    ensures
        is_for(v, AppMode::Skills, k) ==> v.on_event(TuiEvent::Key(k), stamps) == (if k.bound.cancel {
            (AppView { mode: AppMode::Chat, ..v }, nothing())
        } else if k.bound.up {
            (AppView { skills_selected: dialogs::above(v.skills_selected), ..v }, nothing())
        } else if k.bound.down && v.skills.len() > 0 {
            (
                AppView {
                    skills_selected: dialogs::below(v.skills_selected, 1, v.skills.len()),
                    ..v
                },
                nothing(),
            )
        } else {
            (v, nothing())
        }),
        is_for(v, AppMode::Mcp, k) ==> v.on_event(TuiEvent::Key(k), stamps) == (if k.bound.cancel {
            (AppView { mode: AppMode::Chat, ..v }, nothing())
        } else if k.bound.up {
            (AppView { mcp_selected: dialogs::above(v.mcp_selected), ..v }, nothing())
        } else if k.bound.down && v.mcp.len() > 0 {
            (
                AppView { mcp_selected: dialogs::below(v.mcp_selected, 1, v.mcp.len()), ..v },
                nothing(),
            )
        } else {
            (v, nothing())
        }),
        is_for(v, AppMode::Help, k) || is_for(v, AppMode::Settings, k) || is_for(
            v,
            AppMode::ModelInfo,
            k,
        ) ==> v.on_event(TuiEvent::Key(k), stamps) == (if k.bound.cancel {
            (AppView { mode: AppMode::Chat, ..v }, nothing())
        } else {
            (v, nothing())
        }),
{
}

/// A request for approval is answered with yes only by the key that approves, and
/// with no by the keys that deny or cancel; another key shows or hides its
/// details or does nothing.
pub proof fn approval_is_given_by_its_key_alone(v: AppView, k: KeyPress, stamps: Seq<Stamp>)
    requires
        is_for(v, AppMode::ToolApproval, k),
    ensures
        v.approval is None ==> v.on_event(TuiEvent::Key(k), stamps) == (v, nothing()),
        v.approval matches Some(request) ==> {
            let done = v.on_event(TuiEvent::Key(k), stamps);
            let b = k.bound;
            &&& b.approve ==> done == (
                v,
                seq![EffectView::Respond { request, approved: true, reason: None }],
            )
            &&& !b.approve && (b.deny || b.cancel) ==> done == (
                v,
                seq![
                    EffectView::Respond {
                        request,
                        approved: false,
                        reason: Some("User denied permission"@),
                    },
                ],
            )
            &&& !b.approve && !b.deny && !b.cancel && b.view_details ==> done == (
                AppView { show_details: !v.show_details, ..v },
                nothing(),
            )
            &&& !b.approve && !b.deny && !b.cancel && !b.view_details ==> done == (v, nothing())
        },
{
}

/// On a plan, control and A begins it and has it written to its file, control and
/// R has it stored as rejected and takes it away, and control and I goes on to
/// the input that asks for changes.
pub proof fn a_plan_is_decided_on(
    v: AppView,
    p: PlanView,
    session: u128,
    k: KeyPress,
    stamps: Seq<Stamp>,
)
    requires
        is_for(v, AppMode::Plan, k),
        !k.bound.cancel,
        k.ctrl,
        v.plan == Some(p),
        v.session is Some,
        v.session.unwrap().id == session,
    ensures
        k.code == KeyCode::Char('a') ==> v.on_event(TuiEvent::Key(k), stamps) == (
            AppView { plan: Some(PlanView { status: PlanStatus::InProgress, ..p }), ..v },
            seq![EffectView::ExportPlan { file_name: "PLAN.md"@ }],
        ),
        k.code == KeyCode::Char('r') ==> v.on_event(TuiEvent::Key(k), stamps) == (
            AppView { plan: None, mode: AppMode::Chat, ..v },
            seq![
                EffectView::SavePlan {
                    session,
                    plan: PlanView { status: PlanStatus::Rejected, ..p },
                },
            ],
        ),
        k.code == KeyCode::Char('i') ==> {
            let (w, asked) = v.on_event(TuiEvent::Key(k), stamps);
            &&& w == (AppView { mode: AppMode::Chat, input: w.input, ..v })
            &&& w.input == (InputView {
                lines: input::entry_text(plan::revision_text(p)).0,
                cursor: input::entry_text(plan::revision_text(p)).1,
                ..v.input
            })
            &&& asked.len() == 0
        },
{
}

/// A plan is left when that is cancelled, and scrolled by one task or by ten,
/// within its tasks. Without a plan nothing is decided.
pub proof fn a_plan_is_looked_at(v: AppView, k: KeyPress, stamps: Seq<Stamp>)
    requires
        is_for(v, AppMode::Plan, k),
    ensures
        ({
            let (w, asked) = v.on_event(TuiEvent::Key(k), stamps);
            &&& k.bound.cancel ==> w == (AppView { mode: AppMode::Chat, ..v }) && asked.len() == 0
            &&& !k.bound.cancel && v.plan is None && k.ctrl && (k.code == KeyCode::Char('a')
                || k.code == KeyCode::Char('r') || k.code == KeyCode::Char('i')) ==> w == v
                && asked.len() == 0
            &&& !k.bound.cancel ==> {
                &&& k.code == KeyCode::Up ==> w == (AppView {
                    plan_scroll: dialogs::above(v.plan_scroll),
                    ..v
                })
                &&& k.code == KeyCode::PageUp ==> w == (AppView {
                    plan_scroll: w.plan_scroll,
                    ..v
                }) && w.plan_scroll == (if v.plan_scroll >= 10 {
                    v.plan_scroll - 10
                } else {
                    0
                })
                &&& k.code == KeyCode::Down ==> (v.plan matches Some(p) ==> w == (AppView {
                    plan_scroll: dialogs::below(v.plan_scroll, 1, p.tasks.len()),
                    ..v
                }))
                &&& k.code == KeyCode::PageDown ==> (v.plan matches Some(p) ==> w == (AppView {
                    plan_scroll: dialogs::below(v.plan_scroll, 10, p.tasks.len()),
                    ..v
                }))
                &&& k.code == KeyCode::Up || k.code == KeyCode::PageUp || k.code == KeyCode::Down
                    || k.code == KeyCode::PageDown ==> asked.len() == 0
            }
        }),
{
}

/// The commands that show something show it.
pub proof fn commands_show_what_they_name(v: AppView, content: Seq<char>, stamps: Seq<Stamp>)
    requires
        text::trimmed(content).len() > 0,
        text::trimmed(content)[0] == '/',
    ensures
        model::command_word(content) == "/skills"@ ==> v.commanded(content, stamps) == (
            v,
            seq![EffectView::ListSkills],
        ),
        model::command_word(content) == "/mcp"@ ==> v.commanded(content, stamps) == (
            AppView { mcp_selected: 0, mode: AppMode::Mcp, ..v },
            nothing(),
        ),
        model::command_word(content) == "/help"@ ==> v.commanded(content, stamps) == (
            AppView { mode: AppMode::Help, ..v },
            nothing(),
        ),
{
    lemma_words_differ();
}

proof fn lemma_words_differ()
    ensures
        "/skills"@ != "/mcp"@,
        "/skills"@ != "/help"@,
        "/mcp"@ != "/help"@,
{
    reveal_strlit("/skills");
    reveal_strlit("/mcp");
    reveal_strlit("/help");
    assert("/skills"@.len() == 7);
    assert("/mcp"@.len() == 4);
    assert("/help"@.len() == 5);
}

proof fn lemma_word_end(s: Seq<char>, i: int, k: int)
    requires
        0 <= i <= k <= s.len(),
        forall|j: int| i <= j < k ==> !text::is_space(#[trigger] s[j]),
        k == s.len() || text::is_space(s[k]),
    ensures
        model::word_end(s, i) == k,
    decreases k - i,
{
    if i < k {
        lemma_word_end(s, i + 1, k);
    }
}

/// A command is its first word; what stands behind the white space that follows
/// are its arguments, without white space around them.
pub proof fn a_command_is_its_first_word(
    before: Seq<char>,
    word: Seq<char>,
    between: Seq<char>,
    arguments: Seq<char>,
    after: Seq<char>,
)
    requires
        word.len() > 0,
        forall|i: int| 0 <= i < word.len() ==> !text::is_space(#[trigger] word[i]),
        forall|i: int| 0 <= i < before.len() ==> text::is_space(#[trigger] before[i]),
        forall|i: int| 0 <= i < between.len() ==> text::is_space(#[trigger] between[i]),
        forall|i: int| 0 <= i < after.len() ==> text::is_space(#[trigger] after[i]),
        arguments.len() > 0 ==> between.len() > 0 && !text::is_space(arguments[0])
            && !text::is_space(arguments.last()),
        arguments.len() == 0 ==> between.len() == 0,
    ensures
        model::command_word(before + (word + between + arguments) + after) == word,
        model::command_arguments(before + (word + between + arguments) + after) == arguments,
{
    let m = word + between + arguments;
    let none = Seq::<char>::empty();
    assert(m[0] == word[0]);
    if arguments.len() > 0 {
        assert(m.last() == arguments.last());
    } else {
        assert(m.last() == word.last());
    }
    text::space_around_text_is_taken_off(before, m, after);
    let k = word.len() as int;
    assert forall|j: int| 0 <= j < k implies !text::is_space(#[trigger] m[j]) by {
        assert(m[j] == word[j]);
    }
    if arguments.len() > 0 {
        assert(m[k] == between[0]);
    }
    lemma_word_end(m, 0, k);
    assert(m.take(k) =~= word);
    assert(m.skip(k) =~= between + arguments + none);
    text::space_around_text_is_taken_off(between, arguments, none);
}

/// The slashes before the name of a skill are no part of it.
pub proof fn slashes_are_no_part_of_a_name(s: Seq<char>)
    ensures
        s.len() == 0 || s[0] != '/' ==> model::without_slashes(s) == s,
        model::without_slashes(seq!['/'] + s) == model::without_slashes(s),
{
    assert((seq!['/'] + s).drop_first() =~= s);
}

} // verus!
