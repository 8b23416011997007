//! What the dialogs and the file picker do with a key, and what comes of it.

use crate::text;
use crate::tui::dialogs;
use crate::tui::dialogs::{DownloadView, LocalModel, LocalView, ReactionView, SwitchView};
use crate::tui::effects::EffectView;
use crate::tui::event_laws;
use crate::tui::events::{ActiveProvider, SwitchOutcome, TuiEvent};
use crate::tui::files;
use crate::tui::files::{EntryView, FileEntry, PickerView};
use crate::tui::input;
use crate::tui::keys::{KeyCode, KeyPress};
use crate::tui::message::Stamp;
use crate::tui::model::{AppMode, AppView, SessionView};
use crate::types;
use crate::types::Float64;
use crate::llama_cpp::provider::ConfigView;
use vstd::prelude::*;

verus! {

/// A dialog that stays open and asks for nothing.
pub open spec fn quiet() -> ReactionView {
    ReactionView { effects: Seq::empty(), close: false }
}

/// A dialog that stays open and asks for one thing.
pub open spec fn asks(e: EffectView) -> ReactionView {
    ReactionView { effects: seq![e], close: false }
}

/// A dialog that was never opened has nothing in it, and nothing runs.
pub proof fn a_new_dialog_is_empty()
    ensures
        ({
            let d = DownloadView::fresh();
            &&& d.input.len() == 0
            &&& d.suggestions.len() == 0
            &&& d.installed.len() == 0
            &&& d.selected == 0
            &&& !d.running
            &&& d.status is None
            &&& d.fraction is None
            &&& d.confirm_delete is None
            &&& d.deleting is None
        }),
        ({
            let l = LocalView::fresh();
            &&& l.input.len() == 0
            &&& l.models.len() == 0
            &&& l.selected == 0
            &&& !l.loading
            &&& !l.running
            &&& l.status is None
            &&& l.fraction is None
            &&& l.confirm_delete is None
            &&& l.deleting is None
            &&& l.switching is None
            &&& l.hardware is None
            &&& !l.hardware_loading
        }),
{
}

/// In the download dialog: what is typed is the model that is pulled, without
/// white space around it, and the suggestions follow what is typed.
pub proof fn a_typed_model_is_pulled(d: DownloadView, k: KeyPress, c: char)
    requires
        d.confirm_delete is None,
        !d.running,
        d.deleting is None,
        !k.bound.cancel,
        !k.bound.up,
        !k.bound.down,
    ensures
        k.code == KeyCode::Char(c) && !k.bound.enter ==> d.on_key(k) == (
            DownloadView { input: d.input.push(c), selected: 0, ..d },
            asks(EffectView::FilterSuggestions),
        ),
        k.code == KeyCode::Backspace && !k.bound.enter && d.input.len() > 0 ==> d.on_key(k) == (
            DownloadView { input: d.input.take(d.input.len() - 1), selected: 0, ..d },
            asks(EffectView::FilterSuggestions),
        ),
        k.code == KeyCode::Tab && d.selected < d.suggestions.len() ==> d.on_key(k) == (
            DownloadView { input: d.suggestions[d.selected as int], selected: 0, ..d },
            asks(EffectView::FilterSuggestions),
        ),
        k.bound.enter && k.code != KeyCode::Tab && k.code != KeyCode::Delete ==> {
            let model = text::trimmed(d.input);
            &&& model.len() == 0 ==> d.on_key(k) == (d, quiet())
            &&& model.len() > 0 ==> d.on_key(k) == (
                DownloadView { running: true, status: Some("starting…"@), fraction: None, ..d },
                asks(EffectView::PullModel { model }),
            )
        },
{
    if d.input.len() > 0 {
        assert(d.input.drop_last() =~= d.input.take(d.input.len() - 1));
    }
    lemma_trimmed_twice(d.input);
}

proof fn lemma_trimmed_twice(s: Seq<char>)
    ensures
        text::trimmed(text::trimmed(s)) == text::trimmed(s),
{
    text::trimming_takes_only_space(s);
    let none = Seq::<char>::empty();
    let t = text::trimmed(s);
    text::space_around_text_is_taken_off(none, t, none);
    assert(none + t + none =~= t);
}

/// While something is pulled, deleted, downloaded or loaded, nothing else is
/// started, neither by a key nor otherwise.
pub proof fn one_thing_happens_at_a_time(
    d: DownloadView,
    l: LocalView,
    k: KeyPress,
    model: Seq<char>,
)
    requires
        !k.bound.cancel,
        d.confirm_delete is None,
        l.confirm_delete is None,
    ensures
        d.running || d.deleting is Some ==> d.on_key(k) == (d, quiet()) && d.delete(model) == (
            d,
            quiet(),
        ),
        d.running ==> d.pull(model) == (d, quiet()),
        l.running || l.deleting is Some || l.switching is Some ==> l.on_key(k) == (l, quiet())
            && l.delete(model) == (l, quiet()) && l.switch(model) == (l, quiet()),
        l.running ==> l.download() == (l, quiet()),
        !d.running && text::trimmed(model).len() > 0 ==> d.pull(model) == (
            DownloadView { running: true, status: Some("starting…"@), fraction: None, ..d },
            asks(EffectView::PullModel { model }),
        ),
        text::trimmed(model).len() == 0 ==> d.pull(model) == (d, quiet()),
{
}

/// A model is deleted only if it is installed, and only when that is confirmed;
/// with a no the dialog is as before, and another key changes nothing.
pub proof fn a_model_is_deleted_when_confirmed(d: DownloadView, k: KeyPress, model: Seq<char>)
    requires
        !d.running,
        d.deleting is None,
    ensures
        d.confirm_delete == Some(model) ==> {
            &&& k.code == KeyCode::Char('y') || k.code == KeyCode::Char('Y') || k.code
                == KeyCode::Enter ==> d.on_key(k) == (
                DownloadView { confirm_delete: None, deleting: Some(model), ..d },
                asks(EffectView::DeleteModel { model }),
            )
            &&& k.code == KeyCode::Char('n') || k.code == KeyCode::Char('N') || k.code
                == KeyCode::Esc ==> d.on_key(k) == (
                DownloadView { confirm_delete: None, ..d },
                quiet(),
            )
            &&& k.code == KeyCode::Delete || k.code == KeyCode::Tab || k.code == KeyCode::Up
                || k.code == KeyCode::Other ==> d.on_key(k) == (d, quiet())
        },
        d.confirm_delete is None && !k.bound.cancel && !k.bound.up && !k.bound.down && k.code
            == KeyCode::Delete && d.selected < d.suggestions.len() ==> {
            let s = d.suggestions[d.selected as int];
            &&& d.installed.contains(s) ==> d.on_key(k) == (
                DownloadView { confirm_delete: Some(s), ..d },
                quiet(),
            )
            &&& !d.installed.contains(s) ==> d.on_key(k) == (d, quiet())
        },
{
}

/// Cancelling a dialog stops what it does and closes it; going through its list
/// does nothing else.
pub proof fn dialogs_are_left_and_gone_through(
    d: DownloadView,
    l: LocalView,
    s: SwitchView,
    k: KeyPress,
)
    ensures
        k.bound.cancel && d.confirm_delete is None ==> d.on_key(k) == (
            DownloadView { running: false, deleting: None, status: None, fraction: None, ..d },
            ReactionView { effects: seq![EffectView::AbortModelTasks], close: true },
        ),
        k.bound.cancel && l.confirm_delete is None ==> l.on_key(k) == (
            LocalView {
                running: false,
                deleting: None,
                switching: None,
                status: None,
                fraction: None,
                ..l
            },
            ReactionView { effects: seq![EffectView::AbortLocalTasks], close: true },
        ),
        k.bound.cancel ==> s.on_key(k) == (
            s,
            ReactionView { effects: Seq::<EffectView>::empty(), close: true },
        ),
        !k.bound.cancel && k.bound.up ==> {
            &&& d.confirm_delete is None && !d.running && d.deleting is None ==> d.on_key(k) == (
                DownloadView { selected: dialogs::above(d.selected), ..d },
                quiet(),
            )
            &&& l.confirm_delete is None && !l.running && l.deleting is None && l.switching is None
                ==> l.on_key(k) == (
                LocalView { selected: dialogs::above(l.selected), ..l },
                quiet(),
            )
            &&& !s.loading ==> s.on_key(k) == (
                SwitchView { selected: dialogs::above(s.selected), ..s },
                quiet(),
            )
        },
        !k.bound.cancel && !k.bound.up && k.bound.down ==> {
            &&& d.confirm_delete is None && !d.running && d.deleting is None
                && d.suggestions.len() > 0 ==> d.on_key(k) == (
                DownloadView {
                    selected: dialogs::below(d.selected, 1, d.suggestions.len()),
                    ..d
                },
                quiet(),
            )
            &&& l.confirm_delete is None && !l.running && l.deleting is None && l.switching is None
                && l.models.len() > 0 ==> l.on_key(k) == (
                LocalView { selected: dialogs::below(l.selected, 1, l.models.len()), ..l },
                quiet(),
            )
            &&& !s.loading && s.models.len() > 0 ==> s.on_key(k) == (
                SwitchView { selected: dialogs::below(s.selected, 1, s.models.len()), ..s },
                quiet(),
            )
        },
{
}

/// In the dialog for another model, the selected one is switched to, once the
/// models are listed.
pub proof fn the_selected_model_is_switched_to(s: SwitchView, k: KeyPress)
    requires
        !k.bound.cancel,
        !k.bound.up,
        !k.bound.down,
    ensures
        s.loading ==> s.on_key(k) == (s, quiet()),
        !s.loading && k.bound.enter && s.selected < s.models.len() ==> s.on_key(k) == (
            s,
            asks(EffectView::SwitchToOllama { model: s.models[s.selected as int] }),
        ),
        !s.loading && (!k.bound.enter || s.selected >= s.models.len()) ==> s.on_key(k) == (
            s,
            quiet(),
        ),
{
}

/// In the dialog of model files, what was typed is downloaded; where nothing was,
/// the selected file is loaded. A file is deleted only when that is confirmed.
pub proof fn a_model_file_is_chosen(l: LocalView, k: KeyPress, c: char)
    requires
        !l.running,
        l.deleting is None,
        l.switching is None,
        !k.bound.cancel,
        !k.bound.up,
        !k.bound.down,
    ensures
        l.confirm_delete is None ==> {
            let source = text::trimmed(l.input);
            &&& k.bound.enter && k.code != KeyCode::Delete && source.len() > 0 ==> l.on_key(k) == (
                LocalView { running: true, status: Some("resolving…"@), fraction: None, ..l },
                asks(EffectView::DownloadLocal { source }),
            )
            &&& k.bound.enter && k.code != KeyCode::Delete && source.len() == 0 && l.selected
                < l.models.len() ==> l.on_key(k) == (
                LocalView { switching: Some(l.models[l.selected as int].0), ..l },
                asks(EffectView::SwitchLocal { path: l.models[l.selected as int].0 }),
            )
            &&& k.bound.enter && k.code != KeyCode::Delete && source.len() == 0 && l.selected
                >= l.models.len() ==> l.on_key(k) == (l, quiet())
            &&& k.code == KeyCode::Delete && l.selected < l.models.len() ==> l.on_key(k) == (
                LocalView { confirm_delete: Some(l.models[l.selected as int].0), ..l },
                quiet(),
            )
            &&& k.code == KeyCode::Char(c) && !k.bound.enter ==> l.on_key(k) == (
                LocalView { input: l.input.push(c), ..l },
                quiet(),
            )
            &&& k.code == KeyCode::Backspace && !k.bound.enter && l.input.len() > 0 ==> l.on_key(k)
                == (LocalView { input: l.input.take(l.input.len() - 1), ..l }, quiet())
        },
        l.confirm_delete matches Some(path) ==> {
            &&& k.code == KeyCode::Char('y') || k.code == KeyCode::Char('Y') || k.code
                == KeyCode::Enter ==> l.on_key(k) == (
                LocalView { confirm_delete: None, deleting: Some(path), ..l },
                asks(EffectView::DeleteLocal { path }),
            )
            &&& k.code == KeyCode::Char('n') || k.code == KeyCode::Char('N') || k.code
                == KeyCode::Esc ==> l.on_key(k) == (
                LocalView { confirm_delete: None, ..l },
                quiet(),
            )
        },
{
    if l.input.len() > 0 {
        assert(l.input.drop_last() =~= l.input.take(l.input.len() - 1));
    }
}

/// What is left of a list when something was deleted is everything else, in its
/// order.
pub proof fn everything_else_is_left(
    x: Seq<Seq<char>>,
    y: Seq<Seq<char>>,
    one: Seq<char>,
    gone: Seq<char>,
)
    ensures
        dialogs::without(x + y, gone) == dialogs::without(x, gone) + dialogs::without(y, gone),
        dialogs::without(seq![gone], gone).len() == 0,
        one != gone ==> dialogs::without(seq![one], gone) == seq![one],
    decreases y.len(),
{
    let none = Seq::<Seq<char>>::empty();
    assert(seq![gone].drop_last() =~= none);
    assert(seq![one].drop_last() =~= none);
    assert(dialogs::without(none, gone) =~= none);
    assert(none.push(one) =~= seq![one]);
    if y.len() == 0 {
        assert(x + y =~= x);
        assert(dialogs::without(x, gone) + dialogs::without(y, gone) =~= dialogs::without(x, gone));
    } else {
        everything_else_is_left(x, y.drop_last(), one, gone);
        assert((x + y).drop_last() =~= x + y.drop_last());
        assert((x + y).last() == y.last());
        assert(dialogs::without(x + y, gone) =~= dialogs::without(x, gone) + dialogs::without(
            y,
            gone,
        ));
    }
}

/// What is left of the model files when one was deleted is every other, in its
/// order.
pub proof fn every_other_file_is_left(
    x: Seq<(Seq<char>, Seq<char>)>,
    y: Seq<(Seq<char>, Seq<char>)>,
    one: (Seq<char>, Seq<char>),
    gone: Seq<char>,
)
    ensures
        dialogs::elsewhere(x + y, gone) == dialogs::elsewhere(x, gone) + dialogs::elsewhere(
            y,
            gone,
        ),
        one.0 == gone ==> dialogs::elsewhere(seq![one], gone).len() == 0,
        one.0 != gone ==> dialogs::elsewhere(seq![one], gone) == seq![one],
    decreases y.len(),
{
    let none = Seq::<(Seq<char>, Seq<char>)>::empty();
    assert(seq![one].drop_last() =~= none);
    assert(dialogs::elsewhere(none, gone) =~= none);
    assert(none.push(one) =~= seq![one]);
    if y.len() == 0 {
        assert(x + y =~= x);
        assert(dialogs::elsewhere(x, gone) + dialogs::elsewhere(y, gone) =~= dialogs::elsewhere(
            x,
            gone,
        ));
    } else {
        every_other_file_is_left(x, y.drop_last(), one, gone);
        assert((x + y).drop_last() =~= x + y.drop_last());
        assert((x + y).last() == y.last());
        assert(dialogs::elsewhere(x + y, gone) =~= dialogs::elsewhere(x, gone)
            + dialogs::elsewhere(y, gone));
    }
}

/// In the file picker the selected entry is opened with enter or a blank;
/// cancelling closes it, and up and down move by one entry within the list.
pub proof fn the_selected_entry_is_opened(p: PickerView, k: KeyPress)
    requires
        p.files.len() <= usize::MAX,
    ensures
        k.bound.cancel ==> p.on_key(k) == (
            p,
            ReactionView { effects: Seq::<EffectView>::empty(), close: true },
        ),
        !k.bound.cancel && k.bound.up ==> {
            let q = p.on_key(k).0;
            &&& q == (PickerView { selected: q.selected, scroll_offset: q.scroll_offset, ..p })
            &&& p.selected > 0 ==> q.selected == p.selected - 1
            &&& p.selected == 0 ==> q.selected == 0
            &&& p.on_key(k).1 == quiet()
        },
        !k.bound.cancel && !k.bound.up && k.bound.down ==> {
            let q = p.on_key(k).0;
            &&& q == (PickerView { selected: q.selected, scroll_offset: q.scroll_offset, ..p })
            &&& p.selected + 1 < p.files.len() ==> q.selected == p.selected + 1
            &&& p.selected + 1 >= p.files.len() ==> q == p
            &&& p.on_key(k).1 == quiet()
        },
        !k.bound.cancel && !k.bound.up && !k.bound.down && (k.bound.enter || k.code
            == KeyCode::Char(' ')) && p.selected < p.files.len() ==> p.on_key(k) == (
            p,
            asks(EffectView::OpenEntry { path: p.files[p.selected as int].path }),
        ),
{
}

/// Twenty files are seen at once: the list scrolls on when the selection leaves
/// them below, and back when it leaves them above.
pub proof fn twenty_files_are_seen_at_once(p: PickerView, k: KeyPress)
    requires
        p.files.len() <= usize::MAX,
        p.scroll_offset <= p.selected < p.scroll_offset + 20,
        !k.bound.cancel,
    ensures
        ({
            let q = p.on_key(k).0;
            &&& q.scroll_offset <= q.selected < q.scroll_offset + 20
            &&& k.bound.up && q.selected >= p.scroll_offset ==> q.scroll_offset == p.scroll_offset
            &&& !k.bound.up && k.bound.down && q.selected < p.scroll_offset + 20
                ==> q.scroll_offset == p.scroll_offset
        }),
{
}

/// What is listed of a directory is the way up and the entries, in their order,
/// from the first on.
pub proof fn a_directory_is_listed_whole(
    v: AppView,
    up: FileEntry,
    entries: Vec<FileEntry>,
    stamps: Seq<Stamp>,
)
    ensures
        ({
            let e = TuiEvent::DirectoryListed { up: Some(up), entries };
            let (w, asked) = v.on_event(e, stamps);
            let all = seq![up@] + files::entry_views(entries@);
            &&& asked.len() == 0
            &&& w == (AppView { picker: w.picker, mode: AppMode::FilePicker, ..v })
            &&& w.picker.current_dir == v.picker.current_dir
            &&& w.picker.selected == 0
            &&& w.picker.scroll_offset == 0
            &&& w.picker.files.to_multiset() == all.to_multiset()
            &&& w.picker.files.len() == entries@.len() + 1
            &&& files::is_ordered(w.picker.files)
        }),
        ({
            let e = TuiEvent::DirectoryListed { up: None, entries };
            let (w, asked) = v.on_event(e, stamps);
            &&& w.picker.files.to_multiset() == files::entry_views(entries@).to_multiset()
            &&& w.picker.files.len() == entries@.len()
            &&& files::is_ordered(w.picker.files)
        }),
{
    let all = seq![up@] + files::entry_views(entries@);
    files::files_are_ordered_and_all_there(all);
    let some = files::entry_views(entries@);
    assert(Seq::<EntryView>::empty() + some =~= some);
    files::files_are_ordered_and_all_there(some);
}

/// Directories come before files, and entries of one kind come by name, in the
/// order of their characters; a name comes before any longer one that it begins.
pub proof fn entries_come_by_kind_and_name(
    x: EntryView,
    y: EntryView,
    a: Seq<char>,
    b: Seq<char>,
    n: int,
)
    requires
        x.name == Some(a),
        y.name == Some(b),
        0 <= n <= a.len(),
        n <= b.len(),
        a.take(n) == b.take(n),
    ensures
        x.is_dir && !y.is_dir ==> files::entry_before(x, y) && !files::entry_before(y, x),
        x.is_dir == y.is_dir && n < a.len() && n < b.len() && a[n] < b[n] ==> files::entry_before(
            x,
            y,
        ) && !files::entry_before(y, x),
        x.is_dir == y.is_dir && n == a.len() && n < b.len() ==> files::entry_before(x, y)
            && !files::entry_before(y, x),
        a == b && x.is_dir == y.is_dir ==> !files::entry_before(x, y),
        files::entry_before(EntryView { name: None, is_dir: y.is_dir, ..x }, y),
        !files::entry_before(y, EntryView { name: None, is_dir: y.is_dir, ..x }),
{
    lemma_text_before(a, b, n);
    lemma_not_before_itself(a);
}

proof fn lemma_not_before_itself(a: Seq<char>)
    ensures
        !files::text_before(a, a),
    decreases a.len(),
{
    if a.len() > 0 {
        lemma_not_before_itself(a.drop_first());
    }
}

proof fn lemma_text_before(a: Seq<char>, b: Seq<char>, n: int)
    requires
        0 <= n <= a.len(),
        n <= b.len(),
        a.take(n) == b.take(n),
    ensures
        n < a.len() && n < b.len() && a[n] < b[n] ==> files::text_before(a, b)
            && !files::text_before(b, a),
        n == a.len() && n < b.len() ==> files::text_before(a, b) && !files::text_before(b, a),
    decreases n,
{
    if n > 0 {
        assert(a.take(n)[0] == a[0]);
        assert(b.take(n)[0] == b[0]);
        let x = a.drop_first();
        let y = b.drop_first();
        assert(x.take(n - 1) =~= a.take(n).drop_first());
        assert(y.take(n - 1) =~= b.take(n).drop_first());
        lemma_text_before(x, y, n - 1);
    }
}

/// A directory that is opened is gone into, and from the way up into the one
/// above, where there is one. The path of a file goes into the input, and the
/// chat comes back.
pub proof fn an_entry_is_gone_into_or_named(
    v: AppView,
    path: String,
    above: String,
    stamps: Seq<Stamp>,
)
    ensures
        v.on_event(
            TuiEvent::EntryOpened { path, is_dir: true, is_up: false, parent: Some(above) },
            stamps,
        ) == (
            AppView { picker: PickerView { current_dir: path@, ..v.picker }, ..v },
            seq![EffectView::ListDirectory { path: path@ }],
        ),
        v.on_event(
            TuiEvent::EntryOpened { path, is_dir: true, is_up: true, parent: Some(above) },
            stamps,
        ) == (
            AppView { picker: PickerView { current_dir: above@, ..v.picker }, ..v },
            seq![EffectView::ListDirectory { path: above@ }],
        ),
        v.on_event(
            TuiEvent::EntryOpened { path, is_dir: true, is_up: true, parent: None },
            stamps,
        ) == (v, seq![EffectView::ListDirectory { path: v.picker.current_dir }]),
        ({
            let e = TuiEvent::EntryOpened { path, is_dir: false, is_up: false, parent: None };
            let (w, asked) = v.on_event(e, stamps);
            &&& w == (AppView { mode: AppMode::Chat, input: w.input, ..v })
            &&& (w.input.lines, w.input.cursor) == input::with_str(
                v.input.lines,
                v.input.cursor,
                path@,
            )
            &&& w.input.history == v.input.history
            &&& asked.len() == 0
        }),
{
}

/// Pasted text goes in at the cursor, in the chat and nowhere else; so does the
/// text of the clipboard.
pub proof fn pasted_text_goes_in_at_the_cursor(v: AppView, s: String, stamps: Seq<Stamp>)
    ensures
        v.mode != AppMode::Chat ==> v.on_event(TuiEvent::Paste(s), stamps) == (
            v,
            Seq::<EffectView>::empty(),
        ),
        v.mode == AppMode::Chat ==> {
            let (w, asked) = v.on_event(TuiEvent::Paste(s), stamps);
            &&& w == (AppView { input: w.input, ..v })
            &&& (w.input.lines, w.input.cursor) == input::with_str(
                v.input.lines,
                v.input.cursor,
                s@,
            )
            &&& w.input.history == v.input.history
            &&& w.input.position == v.input.position
            &&& w.input.draft == v.input.draft
            &&& asked.len() == 0
        },
        ({
            let (w, asked) = v.on_event(TuiEvent::ClipboardText(s), stamps);
            &&& w == (AppView { input: w.input, ..v })
            &&& (w.input.lines, w.input.cursor) == input::with_str(
                v.input.lines,
                v.input.cursor,
                s@,
            )
            &&& w.input.history == v.input.history
            &&& asked.len() == 0
        }),
{
}

/// What is known of models now is shown, from its first entry on, and what runs
/// is told.
pub proof fn what_is_known_of_models_is_shown(
    v: AppView,
    models: Vec<String>,
    local: Vec<LocalModel>,
    status: String,
    fraction: Option<Float64>,
    stamps: Seq<Stamp>,
)
    ensures
        v.on_event(TuiEvent::OllamaModelsListed(models), stamps) == (
            AppView {
                download: DownloadView {
                    installed: text::texts(models@),
                    selected: 0,
                    ..v.download
                },
                ..v
            },
            seq![EffectView::FilterSuggestions],
        ),
        v.on_event(TuiEvent::SuggestionsFiltered(models), stamps) == (
            AppView {
                download: DownloadView {
                    suggestions: text::texts(models@),
                    selected: 0,
                    ..v.download
                },
                ..v
            },
            Seq::<EffectView>::empty(),
        ),
        v.on_event(TuiEvent::ProviderSwitchModelsListed(models), stamps) == (
            AppView {
                switch: SwitchView { models: text::texts(models@), selected: 0, loading: false },
                ..v
            },
            Seq::<EffectView>::empty(),
        ),
        v.on_event(TuiEvent::OllamaPullProgress { status, fraction }, stamps) == (
            AppView {
                download: DownloadView { status: Some(status@), fraction, ..v.download },
                ..v
            },
            Seq::<EffectView>::empty(),
        ),
        v.on_event(TuiEvent::LlamaCppDownloadProgress { status, fraction }, stamps) == (
            AppView { local: LocalView { status: Some(status@), fraction, ..v.local }, ..v },
            Seq::<EffectView>::empty(),
        ),
        v.on_event(TuiEvent::LlamaCppHardwareDetected(status), stamps) == (
            AppView {
                local: LocalView {
                    hardware: Some(status@),
                    hardware_loading: false,
                    ..v.local
                },
                ..v
            },
            Seq::<EffectView>::empty(),
        ),
        v.on_event(TuiEvent::SkillsListed(models), stamps) == (
            AppView {
                skills: text::texts(models@),
                skills_selected: 0,
                mode: AppMode::Skills,
                ..v
            },
            Seq::<EffectView>::empty(),
        ),
        ({
            let (w, asked) = v.on_event(TuiEvent::LlamaCppModelsListed(local), stamps);
            &&& w == (AppView {
                local: LocalView {
                    models: w.local.models,
                    selected: 0,
                    loading: false,
                    ..v.local
                },
                ..v
            })
            &&& w.local.models.len() == local@.len()
            &&& forall|i: int|
                0 <= i < local@.len() ==> #[trigger] w.local.models[i] == (
                    local@[i].path@,
                    local@[i].name@,
                )
            &&& asked.len() == 0
        }),
{
}

/// What came of pulling a model is said in the chat: that it was, or why not. The
/// dialog is free again, and the installed models are asked for anew.
pub proof fn a_pull_is_reported(v: AppView, model: String, why: String, stamps: Seq<Stamp>)
    ensures
        ({
            let e = TuiEvent::OllamaPullFinished { model, error: None };
            let (w, asked) = v.on_event(e, stamps);
            &&& event_laws::one_more(
                v.messages,
                w.messages,
                "system"@,
                "✅ Pulled '"@ + model@ + "' successfully."@,
            )
            &&& w == (AppView {
                messages: w.messages,
                mode: AppMode::Chat,
                download: DownloadView {
                    running: false,
                    status: None,
                    fraction: None,
                    ..v.download
                },
                ..v
            })
            &&& asked == seq![EffectView::FetchInstalled { for_switch: false }]
        }),
        ({
            let e = TuiEvent::OllamaPullFinished { model, error: Some(why) };
            let (w, asked) = v.on_event(e, stamps);
            &&& event_laws::one_more(
                v.messages,
                w.messages,
                "system"@,
                "❌ Failed to pull '"@ + model@ + "': "@ + why@,
            )
            &&& w == (AppView {
                messages: w.messages,
                mode: AppMode::Chat,
                download: DownloadView {
                    running: false,
                    status: None,
                    fraction: None,
                    ..v.download
                },
                ..v
            })
            &&& asked == seq![EffectView::FetchInstalled { for_switch: false }]
        }),
{
}

/// What came of deleting a model is said in the chat. A model that was deleted is
/// not among the installed ones any more, one that was not still is.
pub proof fn a_deletion_is_reported(v: AppView, model: String, why: String, stamps: Seq<Stamp>)
    ensures
        ({
            let e = TuiEvent::OllamaDeleteFinished { model, error: None };
            let (w, asked) = v.on_event(e, stamps);
            &&& event_laws::one_more(
                v.messages,
                w.messages,
                "system"@,
                "🗑️ Deleted '"@ + model@ + "'."@,
            )
            &&& w == (AppView {
                messages: w.messages,
                mode: AppMode::Chat,
                download: DownloadView {
                    deleting: None,
                    installed: dialogs::without(v.download.installed, model@),
                    selected: 0,
                    ..v.download
                },
                ..v
            })
            &&& asked == seq![EffectView::FilterSuggestions]
        }),
        ({
            let e = TuiEvent::OllamaDeleteFinished { model, error: Some(why) };
            let (w, asked) = v.on_event(e, stamps);
            &&& event_laws::one_more(
                v.messages,
                w.messages,
                "system"@,
                "❌ Failed to delete '"@ + model@ + "': "@ + why@,
            )
            &&& w == (AppView {
                messages: w.messages,
                mode: AppMode::Chat,
                download: DownloadView { deleting: None, ..v.download },
                ..v
            })
            &&& asked.len() == 0
        }),
{
}

/// What came of downloading a model file is said in the chat, and the files are
/// listed anew.
pub proof fn a_download_is_reported(v: AppView, source: String, why: String, stamps: Seq<Stamp>)
    ensures
        ({
            let e = TuiEvent::LlamaCppDownloadFinished { source, error: None };
            let (w, asked) = v.on_event(e, stamps);
            &&& event_laws::one_more(
                v.messages,
                w.messages,
                "system"@,
                "✅ Downloaded '"@ + source@ + "' successfully."@,
            )
            &&& w == (AppView {
                messages: w.messages,
                mode: AppMode::Chat,
                local: LocalView { running: false, status: None, fraction: None, ..v.local },
                ..v
            })
            &&& asked == seq![EffectView::ListLocalModels]
        }),
        ({
            let e = TuiEvent::LlamaCppDownloadFinished { source, error: Some(why) };
            let (w, asked) = v.on_event(e, stamps);
            &&& event_laws::one_more(
                v.messages,
                w.messages,
                "system"@,
                "❌ Failed to download '"@ + source@ + "': "@ + why@,
            )
            &&& w == (AppView {
                messages: w.messages,
                mode: AppMode::Chat,
                local: LocalView { running: false, status: None, fraction: None, ..v.local },
                ..v
            })
            &&& asked == seq![EffectView::ListLocalModels]
        }),
{
}

/// What came of deleting a model file is said in the chat. A file that was
/// deleted is not listed any more, and the selection stays in the list.
pub proof fn a_deleted_file_is_reported(
    v: AppView,
    path: String,
    name: String,
    why: String,
    stamps: Seq<Stamp>,
)
    ensures
        ({
            let e = TuiEvent::LlamaCppDeleteFinished { path, name, error: None };
            let (w, asked) = v.on_event(e, stamps);
            let left = dialogs::elsewhere(v.local.models, path@);
            &&& event_laws::one_more(
                v.messages,
                w.messages,
                "system"@,
                "🗑️ Deleted '"@ + name@ + "'."@,
            )
            &&& w == (AppView {
                messages: w.messages,
                mode: AppMode::Chat,
                local: LocalView {
                    deleting: None,
                    models: left,
                    selected: w.local.selected,
                    ..v.local
                },
                ..v
            })
            &&& left.len() <= usize::MAX ==> w.local.selected == (if v.local.selected
                < left.len() {
                v.local.selected as int
            } else if left.len() > 0 {
                left.len() - 1
            } else {
                0
            })
            &&& asked.len() == 0
        }),
        ({
            let e = TuiEvent::LlamaCppDeleteFinished { path, name, error: Some(why) };
            let (w, asked) = v.on_event(e, stamps);
            &&& event_laws::one_more(
                v.messages,
                w.messages,
                "system"@,
                "❌ Failed to delete '"@ + name@ + "': "@ + why@,
            )
            &&& w == (AppView {
                messages: w.messages,
                mode: AppMode::Chat,
                local: LocalView { deleting: None, ..v.local },
                ..v
            })
            &&& asked.len() == 0
        }),
{
}

/// The session with another model and provider noted in it.
pub open spec fn renamed(s: Option<SessionView>, model: Seq<char>, provider: Seq<char>) -> Option<
    SessionView,
> {
    match s {
        Some(s) => Some(
            SessionView {
                id: s.id,
                title: s.title,
                model: Some(model),
                provider: Some(provider),
            },
        ),
        None => None,
    }
}

/// A model file that was switched to is in use, is the configured one, and is
/// noted in the session, which is stored. That is said in the chat.
pub proof fn a_switch_to_a_file_counts(
    v: AppView,
    path: String,
    name: String,
    p: ActiveProvider,
    stamps: Seq<Stamp>,
)
    ensures
        ({
            let e = TuiEvent::LlamaCppSwitchFinished {
                path,
                name,
                outcome: SwitchOutcome::Switched(p),
            };
            let (w, asked) = v.on_event(e, stamps);
            &&& event_laws::one_more(
                v.messages,
                w.messages,
                "system"@,
                "✅ Switched to '"@ + name@ + "'."@,
            )
            &&& w == (AppView {
                messages: w.messages,
                mode: AppMode::Chat,
                local: LocalView { switching: None, ..v.local },
                provider_name: p.name@,
                provider_model: p.model@,
                context_window: p.context_window,
                active_path: Some(path@),
                config: match v.config {
                    Some(c) => Some(ConfigView { model_path: path@, ..c }),
                    None => None,
                },
                session: renamed(v.session, name@, "llama-cpp"@),
                ..v
            })
            &&& v.session is Some ==> asked == seq![EffectView::SaveSession]
            &&& v.session is None ==> asked.len() == 0
        }),
{
}

/// Where a model file could not be switched to, the model in use stays, and why
/// is said in the chat.
pub proof fn a_failed_switch_changes_nothing(
    v: AppView,
    path: String,
    name: String,
    why: String,
    stamps: Seq<Stamp>,
)
    ensures
        ({
            let busy = v.on_event(
                TuiEvent::LlamaCppSwitchFinished { path, name, outcome: SwitchOutcome::Busy },
                stamps,
            );
            let lost = v.on_event(
                TuiEvent::LlamaCppSwitchFinished { path, name, outcome: SwitchOutcome::Lost },
                stamps,
            );
            let bad = v.on_event(
                TuiEvent::LlamaCppSwitchFinished {
                    path,
                    name,
                    outcome: SwitchOutcome::Failed(why),
                },
                stamps,
            );
            let after = AppView {
                mode: AppMode::Chat,
                local: LocalView { switching: None, ..v.local },
                ..v
            };
            &&& busy.0 == (AppView { messages: busy.0.messages, ..after })
            &&& event_laws::one_more(
                v.messages,
                busy.0.messages,
                "system"@,
                "❌ "@
                    + "Can't switch provider while a response is in progress - try again once it finishes."@,
            )
            &&& lost.0 == (AppView { messages: lost.0.messages, ..after })
            &&& event_laws::one_more(
                v.messages,
                lost.0.messages,
                "system"@,
                "❌ Model '"@ + name@ + "' loaded but the result was lost - try again."@,
            )
            &&& bad.0 == (AppView { messages: bad.0.messages, ..after })
            &&& event_laws::one_more(
                v.messages,
                bad.0.messages,
                "system"@,
                "❌ Failed to load '"@ + name@ + "': "@ + why@,
            )
            &&& busy.1.len() == 0
            &&& lost.1.len() == 0
            &&& bad.1.len() == 0
        }),
{
}

/// An installed model that was switched to is in use and is noted in the session,
/// which is stored. That is said in the chat. Where it could not be switched to,
/// why is shown, and nothing else changes.
pub proof fn a_switch_to_an_installed_model_counts(
    v: AppView,
    model: String,
    p: ActiveProvider,
    why: String,
    stamps: Seq<Stamp>,
)
    ensures
        ({
            let e = TuiEvent::OllamaSwitchFinished { model, outcome: SwitchOutcome::Switched(p) };
            let (w, asked) = v.on_event(e, stamps);
            &&& event_laws::one_more(
                v.messages,
                w.messages,
                "system"@,
                "✅ Switched to Ollama model '"@ + model@ + "'."@,
            )
            &&& w == (AppView {
                messages: w.messages,
                mode: AppMode::Chat,
                provider_name: p.name@,
                provider_model: p.model@,
                context_window: p.context_window,
                session: renamed(v.session, model@, "ollama"@),
                ..v
            })
            &&& v.session is Some ==> asked == seq![EffectView::SaveSession]
            &&& v.session is None ==> asked.len() == 0
        }),
        v.on_event(
            TuiEvent::OllamaSwitchFinished { model, outcome: SwitchOutcome::Failed(why) },
            stamps,
        ) == (AppView { error: Some(why@), ..v }, Seq::<EffectView>::empty()),
        v.on_event(
            TuiEvent::OllamaSwitchFinished { model, outcome: SwitchOutcome::Busy },
            stamps,
        ) == (
            AppView {
                error: Some(
                    "Can't switch provider while a response is in progress - try again once it finishes."@,
                ),
                ..v
            },
            Seq::<EffectView>::empty(),
        ),
{
}

} // verus!
