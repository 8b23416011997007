//! The dialogs: downloads and the choice of a model.

use crate::qwen::calls;
use crate::text;
use crate::tui::effects;
use crate::tui::effects::{Effect, EffectView};
use crate::tui::keys::{KeyCode, KeyPress};
use crate::types;
use crate::types::Float64;
use vstd::prelude::*;
use vstd::string::*;

verus! {

/// The entry above in a list.
pub open spec fn above(selected: usize) -> usize {
    if selected == 0 {
        0
    } else {
        (selected - 1) as usize
    }
}

/// The entry below in a list of `len`: `step` further, or the last.
pub open spec fn below(selected: usize, step: nat, len: nat) -> usize {
    let last = if len == 0 {
        0
    } else {
        len - 1
    };
    if selected + step <= last {
        (selected + step) as usize
    } else {
        last as usize
    }
}

/// The entry above in a list.
pub fn move_up(selected: usize) -> (r: usize)
    ensures
        r == above(selected),
{
    if selected == 0 {
        0
    } else {
        selected - 1
    }
}

/// The entry below in a list of `len`: `step` further, or the last.
pub fn move_down(selected: usize, step: usize, len: usize) -> (r: usize)
    ensures
        r == below(selected, step as nat, len as nat),
{
    let last: usize = if len == 0 {
        0
    } else {
        len - 1
    };
    if selected <= last && step <= last - selected {
        selected + step
    } else {
        last
    }
}

/// Moving in a list stays in it, and up undoes down before the end.
pub proof fn moves_stay_in_the_list(selected: usize, len: nat)
    requires
        selected < len,
        len <= usize::MAX,
    ensures
        above(selected) < len,
        below(selected, 1, len) < len,
        selected + 1 < len ==> above(below(selected, 1, len)) == selected,
{
}

/// `s` without its last character.
pub open spec fn without_last(s: Seq<char>) -> Seq<char> {
    if s.len() == 0 {
        s
    } else {
        s.drop_last()
    }
}

fn drop_last_char(s: &String) -> (r: String)
    ensures
        r@ == without_last(s@),
{
    let v = text::chars_of(s.as_str());
    if v.len() == 0 {
        String::new()
    } else {
        let r = text::string_of(&v, 0, v.len() - 1);
        assert(r@ =~= s@.drop_last());
        r
    }
}

fn with_char(s: &String, c: char) -> (r: String)
    ensures
        r@ == s@.push(c),
{
    let mut r = s.clone();
    r.push(c);
    r
}

/// What a dialog does with a key besides changing itself.
pub struct Reaction {
    pub effects: Vec<Effect>,
    /// Whether the dialog closes.
    pub close: bool,
}

/// What a [`Reaction`] holds.
pub struct ReactionView {
    pub effects: Seq<EffectView>,
    pub close: bool,
}

impl View for Reaction {
    type V = ReactionView;

    open spec fn view(&self) -> ReactionView {
        ReactionView { effects: effects::effect_views(self.effects@), close: self.close }
    }
}

/// No reaction.
pub open spec fn no_reaction() -> ReactionView {
    ReactionView { effects: Seq::empty(), close: false }
}

/// One effect and nothing else.
pub open spec fn reaction(e: EffectView) -> ReactionView {
    ReactionView { effects: seq![e], close: false }
}

pub(crate) fn stay() -> (r: Reaction)
    ensures
        r@ == no_reaction(),
{
    Reaction { effects: effects::nothing(), close: false }
}

pub(crate) fn do_one(e: Effect) -> (r: Reaction)
    ensures
        r@ == reaction(e@),
{
    Reaction { effects: effects::only(e), close: false }
}

/// Whether a key confirms a deletion.
pub open spec fn confirms(code: KeyCode) -> bool {
    code == KeyCode::Char('y') || code == KeyCode::Char('Y') || code == KeyCode::Enter
}

/// Whether a key calls a deletion off.
pub open spec fn calls_off(code: KeyCode) -> bool {
    code == KeyCode::Char('n') || code == KeyCode::Char('N') || code == KeyCode::Esc
}

fn is_confirm(code: KeyCode) -> (r: bool)
    ensures
        r == confirms(code),
{
    code == KeyCode::Char('y') || code == KeyCode::Char('Y') || code == KeyCode::Enter
}

fn is_call_off(code: KeyCode) -> (r: bool)
    ensures
        r == calls_off(code),
{
    code == KeyCode::Char('n') || code == KeyCode::Char('N') || code == KeyCode::Esc
}

/// The dialog in which models are pulled and deleted.
#[derive(Debug)]
pub struct ModelDownload {
    pub input: String,
    pub suggestions: Vec<String>,
    pub selected: usize,
    pub installed: Vec<String>,
    pub running: bool,
    pub status: Option<String>,
    pub fraction: Option<Float64>,
    /// The model whose deletion waits for a yes.
    pub confirm_delete: Option<String>,
    /// The model that is being deleted.
    pub deleting: Option<String>,
}

/// What a [`ModelDownload`] holds.
pub struct DownloadView {
    pub input: Seq<char>,
    pub suggestions: Seq<Seq<char>>,
    pub selected: usize,
    pub installed: Seq<Seq<char>>,
    pub running: bool,
    pub status: Option<Seq<char>>,
    pub fraction: Option<Float64>,
    pub confirm_delete: Option<Seq<char>>,
    pub deleting: Option<Seq<char>>,
}

impl View for ModelDownload {
    type V = DownloadView;

    open spec fn view(&self) -> DownloadView {
        DownloadView {
            input: self.input@,
            suggestions: text::texts(self.suggestions@),
            selected: self.selected,
            installed: text::texts(self.installed@),
            running: self.running,
            status: types::opt_text(self.status),
            fraction: self.fraction,
            confirm_delete: types::opt_text(self.confirm_delete),
            deleting: types::opt_text(self.deleting),
        }
    }
}

impl DownloadView {
    /// The dialog as it is before it was ever opened.
    pub open spec fn fresh() -> DownloadView {
        DownloadView {
            input: Seq::empty(),
            suggestions: Seq::empty(),
            selected: 0,
            installed: Seq::empty(),
            running: false,
            status: None,
            fraction: None,
            confirm_delete: None,
            deleting: None,
        }
    }

    /// The dialog when it is opened: empty, but for what is known already.
    pub open spec fn opened(self) -> DownloadView {
        DownloadView {
            suggestions: self.suggestions,
            installed: self.installed,
            ..Self::fresh()
        }
    }

    /// The suggestion that is selected.
    pub open spec fn choice(self) -> Option<Seq<char>> {
        if self.selected < self.suggestions.len() {
            Some(self.suggestions[self.selected as int])
        } else {
            None
        }
    }

    /// Whether a model is being pulled or deleted.
    pub open spec fn busy(self) -> bool {
        self.running || self.deleting is Some
    }

    /// The dialog and its reaction to a key.
    pub open spec fn on_key(self, k: KeyPress) -> (DownloadView, ReactionView) {
        match self.confirm_delete {
            Some(model) => {
                let asked = DownloadView { confirm_delete: None, ..self };
                if confirms(k.code) {
                    asked.delete(model)
                } else if calls_off(k.code) {
                    (asked, no_reaction())
                } else {
                    (self, no_reaction())
                }
            },
            None => if k.bound.cancel {
                (
                    DownloadView {
                        running: false,
                        deleting: None,
                        status: None,
                        fraction: None,
                        ..self
                    },
                    ReactionView { effects: seq![EffectView::AbortModelTasks], close: true },
                )
            } else if self.busy() {
                (self, no_reaction())
            } else if k.bound.up {
                (DownloadView { selected: above(self.selected), ..self }, no_reaction())
            } else if k.bound.down {
                if self.suggestions.len() == 0 {
                    (self, no_reaction())
                } else {
                    (
                        DownloadView {
                            selected: below(self.selected, 1, self.suggestions.len()),
                            ..self
                        },
                        no_reaction(),
                    )
                }
            } else if k.code == KeyCode::Tab {
                match self.choice() {
                    Some(s) => self.typed(s),
                    None => (self, no_reaction()),
                }
            } else if k.code == KeyCode::Delete {
                match self.choice() {
                    Some(s) if self.installed.contains(s) => (
                        DownloadView { confirm_delete: Some(s), ..self },
                        no_reaction(),
                    ),
                    _ => (self, no_reaction()),
                }
            } else if k.bound.enter {
                let model = text::trimmed(self.input);
                if model.len() == 0 {
                    (self, no_reaction())
                } else {
                    self.pull(model)
                }
            } else {
                match k.code {
                    KeyCode::Char(c) => self.typed(self.input.push(c)),
                    KeyCode::Backspace => self.typed(without_last(self.input)),
                    _ => (self, no_reaction()),
                }
            },
        }
    }

    /// The dialog with another input: the suggestions are filtered anew.
    pub open spec fn typed(self, input: Seq<char>) -> (DownloadView, ReactionView) {
        (DownloadView { input, selected: 0, ..self }, reaction(EffectView::FilterSuggestions))
    }

    /// The dialog when a model is to be pulled. Nothing happens while one is.
    pub open spec fn pull(self, model: Seq<char>) -> (DownloadView, ReactionView) {
        if self.running || text::trimmed(model).len() == 0 {
            (self, no_reaction())
        } else {
            (
                DownloadView {
                    running: true,
                    status: Some("starting…"@),
                    fraction: None,
                    ..self
                },
                reaction(EffectView::PullModel { model }),
            )
        }
    }

    /// The dialog when a model is to be deleted. Nothing happens while one is
    /// pulled or deleted.
    pub open spec fn delete(self, model: Seq<char>) -> (DownloadView, ReactionView) {
        if self.busy() {
            (self, no_reaction())
        } else {
            (
                DownloadView { deleting: Some(model), ..self },
                reaction(EffectView::DeleteModel { model }),
            )
        }
    }

    /// The dialog when a model has been pulled or could not be.
    pub open spec fn pulled(self) -> DownloadView {
        DownloadView { running: false, status: None, fraction: None, ..self }
    }

    /// The dialog when a model has been deleted or could not be.
    pub open spec fn deleted(self, model: Seq<char>, gone: bool) -> DownloadView {
        if gone {
            DownloadView {
                deleting: None,
                installed: without(self.installed, model),
                selected: 0,
                ..self
            }
        } else {
            DownloadView { deleting: None, ..self }
        }
    }
}

/// The texts other than `x`, in order.
pub open spec fn without(v: Seq<Seq<char>>, x: Seq<char>) -> Seq<Seq<char>>
    decreases v.len(),
{
    if v.len() == 0 {
        Seq::empty()
    } else if v.last() == x {
        without(v.drop_last(), x)
    } else {
        without(v.drop_last(), x).push(v.last())
    }
}

fn retain_others(v: &Vec<String>, x: &str) -> (r: Vec<String>)
    ensures
        text::texts(r@) == without(text::texts(v@), x@),
{
    let ghost all = text::texts(v@);
    let mut out: Vec<String> = Vec::new();
    let mut i: usize = 0;
    assert(text::texts(out@) =~= without(all.take(0), x@));
    while i < v.len()
        invariant
            i <= v@.len(),
            all == text::texts(v@),
            text::texts(out@) == without(all.take(i as int), x@),
        decreases v@.len() - i,
    {
        let ghost before = text::texts(out@);
        proof {
            assert(all.take(i as int + 1).drop_last() =~= all.take(i as int));
            assert(all.take(i as int + 1).last() == v@[i as int]@);
        }
        if !text::same(v[i].as_str(), x) {
            out.push(v[i].clone());
            assert(text::texts(out@) =~= before.push(v@[i as int]@));
        }
        i = i + 1;
    }
    assert(all.take(v@.len() as int) =~= all);
    out
}

impl ModelDownload {
    /// The dialog as it is before it was ever opened.
    pub fn new() -> (r: Self)
        ensures
            r@ == DownloadView::fresh(),
    {
        let r = ModelDownload {
            input: String::new(),
            suggestions: Vec::new(),
            selected: 0,
            installed: Vec::new(),
            running: false,
            status: None,
            fraction: None,
            confirm_delete: None,
            deleting: None,
        };
        proof {
            assert(r@.input =~= Seq::empty());
            assert(r@.suggestions =~= Seq::empty());
            assert(r@.installed =~= Seq::empty());
        }
        r
    }

    /// Opens the dialog.
    pub fn open(&mut self)
        ensures
            final(self)@ == old(self)@.opened(),
    {
        self.input = String::new();
        assert(self@.input =~= Seq::empty());
        self.selected = 0;
        self.running = false;
        self.status = None;
        self.fraction = None;
        self.confirm_delete = None;
        self.deleting = None;
    }

    fn set_typed(&mut self, input: String) -> (r: Reaction)
        ensures
            final(self)@ == old(self)@.typed(input@).0,
            r@ == old(self)@.typed(input@).1,
    {
        self.input = input;
        self.selected = 0;
        do_one(Effect::FilterSuggestions)
    }

    /// Starts pulling a model.
    pub fn start_model_pull(&mut self, model: String) -> (r: Reaction)
        ensures
            final(self)@ == old(self)@.pull(model@).0,
            r@ == old(self)@.pull(model@).1,
    {
        if self.running {
            return stay();
        }
        let t = text::trim(model.as_str());
        if t.as_str().is_empty() {
            return stay();
        }
        self.running = true;
        self.status = Some("starting…".to_string());
        self.fraction = None;
        do_one(Effect::PullModel { model })
    }

    /// Starts deleting a model.
    pub fn start_model_delete(&mut self, model: String) -> (r: Reaction)
        ensures
            final(self)@ == old(self)@.delete(model@).0,
            r@ == old(self)@.delete(model@).1,
    {
        if self.running || self.deleting.is_some() {
            return stay();
        }
        self.deleting = Some(model.clone());
        do_one(Effect::DeleteModel { model })
    }

    fn choice(&self) -> (r: Option<String>)
        ensures
            match r {
                Some(s) => self@.choice() == Some(s@),
                None => self@.choice() is None,
            },
    {
        if self.selected < self.suggestions.len() {
            Some(self.suggestions[self.selected].clone())
        } else {
            None
        }
    }

    /// Takes a key.
    pub fn on_key(&mut self, k: &KeyPress) -> (r: Reaction)
        ensures
            final(self)@ == old(self)@.on_key(*k).0,
            r@ == old(self)@.on_key(*k).1,
    {
        if let Some(model) = &self.confirm_delete {
            let model = model.clone();
            if is_confirm(k.code) {
                self.confirm_delete = None;
                return self.start_model_delete(model);
            }
            if is_call_off(k.code) {
                self.confirm_delete = None;
            }
            return stay();
        }
        if k.bound.cancel {
            self.running = false;
            self.deleting = None;
            self.status = None;
            self.fraction = None;
            return Reaction { effects: effects::only(Effect::AbortModelTasks), close: true };
        }
        if self.running || self.deleting.is_some() {
            return stay();
        }
        if k.bound.up {
            self.selected = move_up(self.selected);
            return stay();
        }
        if k.bound.down {
            if self.suggestions.len() > 0 {
                self.selected = move_down(self.selected, 1, self.suggestions.len());
            }
            return stay();
        }
        if k.code == KeyCode::Tab {
            return match self.choice() {
                Some(s) => self.set_typed(s),
                None => stay(),
            };
        }
        if k.code == KeyCode::Delete {
            if let Some(s) = self.choice() {
                if calls::is_known(&self.installed, s.as_str()) {
                    self.confirm_delete = Some(s);
                }
            }
            return stay();
        }
        if k.bound.enter {
            let model = text::trim(self.input.as_str());
            if model.as_str().is_empty() {
                return stay();
            }
            return self.start_model_pull(model);
        }
        match k.code {
            KeyCode::Char(c) => {
                let next = with_char(&self.input, c);
                self.set_typed(next)
            },
            KeyCode::Backspace => {
                let next = drop_last_char(&self.input);
                self.set_typed(next)
            },
            _ => stay(),
        }
    }

    /// Takes the suggestions that fit the input.
    pub fn set_suggestions(&mut self, suggestions: Vec<String>)
        ensures
            final(self)@ == (DownloadView {
                suggestions: text::texts(suggestions@),
                selected: 0,
                ..old(self)@
            }),
    {
        self.suggestions = suggestions;
        self.selected = 0;
    }

    /// A model has been pulled or could not be.
    pub fn on_pulled(&mut self)
        ensures
            final(self)@ == old(self)@.pulled(),
    {
        self.running = false;
        self.status = None;
        self.fraction = None;
    }

    /// A model has been deleted, if `gone`, or could not be.
    pub fn on_deleted(&mut self, model: &str, gone: bool)
        ensures
            final(self)@ == old(self)@.deleted(model@, gone),
    {
        self.deleting = None;
        if gone {
            self.installed = retain_others(&self.installed, model);
            self.selected = 0;
        }
    }
}

/// The dialog in which an installed model is switched to.
#[derive(Debug)]
pub struct ProviderSwitch {
    pub models: Vec<String>,
    pub selected: usize,
    pub loading: bool,
}

/// What a [`ProviderSwitch`] holds.
pub struct SwitchView {
    pub models: Seq<Seq<char>>,
    pub selected: usize,
    pub loading: bool,
}

impl View for ProviderSwitch {
    type V = SwitchView;

    open spec fn view(&self) -> SwitchView {
        SwitchView {
            models: text::texts(self.models@),
            selected: self.selected,
            loading: self.loading,
        }
    }
}

impl SwitchView {
    /// The dialog and its reaction to a key. While the models are being listed,
    /// only cancelling does anything.
    pub open spec fn on_key(self, k: KeyPress) -> (SwitchView, ReactionView) {
        if k.bound.cancel {
            (self, ReactionView { effects: Seq::empty(), close: true })
        } else if self.loading {
            (self, no_reaction())
        } else if k.bound.up {
            (SwitchView { selected: above(self.selected), ..self }, no_reaction())
        } else if k.bound.down {
            if self.models.len() == 0 {
                (self, no_reaction())
            } else {
                (
                    SwitchView { selected: below(self.selected, 1, self.models.len()), ..self },
                    no_reaction(),
                )
            }
        } else if k.bound.enter && self.selected < self.models.len() {
            (
                self,
                reaction(EffectView::SwitchToOllama { model: self.models[self.selected as int] }),
            )
        } else {
            (self, no_reaction())
        }
    }
}

impl ProviderSwitch {
    /// The dialog as it is before it was ever opened.
    pub fn new() -> (r: Self)
        ensures
            r@ == (SwitchView { models: Seq::empty(), selected: 0, loading: false }),
    {
        let r = ProviderSwitch { models: Vec::new(), selected: 0, loading: false };
        assert(r@.models =~= Seq::empty());
        r
    }

    /// Opens the dialog; the models are still to be listed.
    pub fn open(&mut self)
        ensures
            final(self)@ == (SwitchView { models: Seq::empty(), selected: 0, loading: true }),
    {
        self.selected = 0;
        self.models = Vec::new();
        self.loading = true;
        assert(self@.models =~= Seq::empty());
    }

    /// Takes the models that are installed.
    pub fn set_models(&mut self, models: Vec<String>)
        ensures
            final(self)@ == (SwitchView {
                models: text::texts(models@),
                selected: 0,
                loading: false,
            }),
    {
        self.loading = false;
        self.models = models;
        self.selected = 0;
    }

    /// Takes a key.
    pub fn on_key(&mut self, k: &KeyPress) -> (r: Reaction)
        ensures
            final(self)@ == old(self)@.on_key(*k).0,
            r@ == old(self)@.on_key(*k).1,
    {
        if k.bound.cancel {
            return Reaction { effects: effects::nothing(), close: true };
        }
        if self.loading {
            return stay();
        }
        if k.bound.up {
            self.selected = move_up(self.selected);
            return stay();
        }
        if k.bound.down {
            if self.models.len() > 0 {
                self.selected = move_down(self.selected, 1, self.models.len());
            }
            return stay();
        }
        if k.bound.enter && self.selected < self.models.len() {
            return do_one(Effect::SwitchToOllama { model: self.models[self.selected].clone() });
        }
        stay()
    }
}

/// A model file.
#[derive(Clone, Debug)]
pub struct LocalModel {
    pub path: String,
    pub name: String,
}

/// What the model files of a list are: path and name.
pub open spec fn local_views(v: Seq<LocalModel>) -> Seq<(Seq<char>, Seq<char>)> {
    Seq::new(v.len(), |i: int| (v[i].path@, v[i].name@))
}

/// The dialog in which model files are downloaded, deleted and switched to.
#[derive(Debug)]
pub struct LocalModels {
    pub models: Vec<LocalModel>,
    pub selected: usize,
    pub loading: bool,
    pub input: String,
    pub running: bool,
    pub status: Option<String>,
    pub fraction: Option<Float64>,
    /// The file whose deletion waits for a yes.
    pub confirm_delete: Option<String>,
    /// The file that is being deleted.
    pub deleting: Option<String>,
    /// The file that is being loaded.
    pub switching: Option<String>,
    /// What hardware there is, once it is known.
    pub hardware: Option<String>,
    pub hardware_loading: bool,
}

/// What a [`LocalModels`] holds.
pub struct LocalView {
    pub models: Seq<(Seq<char>, Seq<char>)>,
    pub selected: usize,
    pub loading: bool,
    pub input: Seq<char>,
    pub running: bool,
    pub status: Option<Seq<char>>,
    pub fraction: Option<Float64>,
    pub confirm_delete: Option<Seq<char>>,
    pub deleting: Option<Seq<char>>,
    pub switching: Option<Seq<char>>,
    pub hardware: Option<Seq<char>>,
    pub hardware_loading: bool,
}

impl View for LocalModels {
    type V = LocalView;

    open spec fn view(&self) -> LocalView {
        LocalView {
            models: local_views(self.models@),
            selected: self.selected,
            loading: self.loading,
            input: self.input@,
            running: self.running,
            status: types::opt_text(self.status),
            fraction: self.fraction,
            confirm_delete: types::opt_text(self.confirm_delete),
            deleting: types::opt_text(self.deleting),
            switching: types::opt_text(self.switching),
            hardware: types::opt_text(self.hardware),
            hardware_loading: self.hardware_loading,
        }
    }
}

/// The model files other than those at `path`, in order.
pub open spec fn elsewhere(v: Seq<(Seq<char>, Seq<char>)>, path: Seq<char>) -> Seq<
    (Seq<char>, Seq<char>),
>
    decreases v.len(),
{
    if v.len() == 0 {
        Seq::empty()
    } else if v.last().0 == path {
        elsewhere(v.drop_last(), path)
    } else {
        elsewhere(v.drop_last(), path).push(v.last())
    }
}

impl LocalView {
    /// The dialog as it is before it was ever opened.
    pub open spec fn fresh() -> LocalView {
        LocalView {
            models: Seq::empty(),
            selected: 0,
            loading: false,
            input: Seq::empty(),
            running: false,
            status: None,
            fraction: None,
            confirm_delete: None,
            deleting: None,
            switching: None,
            hardware: None,
            hardware_loading: false,
        }
    }

    /// Whether the hardware is still to be looked at.
    pub open spec fn wants_hardware(self) -> bool {
        self.hardware is None && !self.hardware_loading
    }

    /// The dialog when it is opened: the files are listed anew, and the hardware
    /// is looked at once.
    pub open spec fn opened(self) -> LocalView {
        LocalView {
            input: Seq::empty(),
            selected: 0,
            running: false,
            status: None,
            fraction: None,
            confirm_delete: None,
            deleting: None,
            loading: true,
            hardware_loading: self.hardware_loading || self.wants_hardware(),
            ..self
        }
    }

    /// Whether a file is being downloaded, deleted or loaded.
    pub open spec fn busy(self) -> bool {
        self.running || self.deleting is Some || self.switching is Some
    }

    /// The file that is selected.
    pub open spec fn choice(self) -> Option<Seq<char>> {
        if self.selected < self.models.len() {
            Some(self.models[self.selected as int].0)
        } else {
            None
        }
    }

    /// The dialog when what was typed is to be downloaded.
    pub open spec fn download(self) -> (LocalView, ReactionView) {
        let source = text::trimmed(self.input);
        if self.running || source.len() == 0 {
            (self, no_reaction())
        } else {
            (
                LocalView { running: true, status: Some("resolving…"@), fraction: None, ..self },
                reaction(EffectView::DownloadLocal { source }),
            )
        }
    }

    /// The dialog when a file is to be deleted. Nothing happens while it is busy.
    pub open spec fn delete(self, path: Seq<char>) -> (LocalView, ReactionView) {
        if self.busy() {
            (self, no_reaction())
        } else {
            (
                LocalView { deleting: Some(path), ..self },
                reaction(EffectView::DeleteLocal { path }),
            )
        }
    }

    /// The dialog when a file is to be loaded. Nothing happens while it is busy.
    pub open spec fn switch(self, path: Seq<char>) -> (LocalView, ReactionView) {
        if self.busy() {
            (self, no_reaction())
        } else {
            (
                LocalView { switching: Some(path), ..self },
                reaction(EffectView::SwitchLocal { path }),
            )
        }
    }

    /// The dialog and its reaction to a key. Enter downloads what was typed,
    /// and where nothing was, it switches to the selected file.
    pub open spec fn on_key(self, k: KeyPress) -> (LocalView, ReactionView) {
        match self.confirm_delete {
            Some(path) => {
                let asked = LocalView { confirm_delete: None, ..self };
                if confirms(k.code) {
                    asked.delete(path)
                } else if calls_off(k.code) {
                    (asked, no_reaction())
                } else {
                    (self, no_reaction())
                }
            },
            None => if k.bound.cancel {
                (
                    LocalView {
                        running: false,
                        deleting: None,
                        switching: None,
                        status: None,
                        fraction: None,
                        ..self
                    },
                    ReactionView { effects: seq![EffectView::AbortLocalTasks], close: true },
                )
            } else if self.busy() {
                (self, no_reaction())
            } else if k.bound.up {
                (LocalView { selected: above(self.selected), ..self }, no_reaction())
            } else if k.bound.down {
                if self.models.len() == 0 {
                    (self, no_reaction())
                } else {
                    (
                        LocalView { selected: below(self.selected, 1, self.models.len()), ..self },
                        no_reaction(),
                    )
                }
            } else if k.code == KeyCode::Delete {
                match self.choice() {
                    Some(path) => (
                        LocalView { confirm_delete: Some(path), ..self },
                        no_reaction(),
                    ),
                    None => (self, no_reaction()),
                }
            } else if k.bound.enter {
                if text::trimmed(self.input).len() > 0 {
                    self.download()
                } else {
                    match self.choice() {
                        Some(path) => self.switch(path),
                        None => (self, no_reaction()),
                    }
                }
            } else {
                match k.code {
                    KeyCode::Char(c) => (
                        LocalView { input: self.input.push(c), ..self },
                        no_reaction(),
                    ),
                    KeyCode::Backspace => (
                        LocalView { input: without_last(self.input), ..self },
                        no_reaction(),
                    ),
                    _ => (self, no_reaction()),
                }
            },
        }
    }

    /// The dialog when a file has been deleted or could not be.
    pub open spec fn deleted(self, path: Seq<char>, gone: bool) -> LocalView {
        if gone {
            let models = elsewhere(self.models, path);
            LocalView { deleting: None, models, selected: below(self.selected, 0, models.len()), ..self }
        } else {
            LocalView { deleting: None, ..self }
        }
    }
}

impl LocalModels {
    /// The dialog as it is before it was ever opened.
    pub fn new() -> (r: Self)
        ensures
            r@ == LocalView::fresh(),
    {
        let r = LocalModels {
            models: Vec::new(),
            selected: 0,
            loading: false,
            input: String::new(),
            running: false,
            status: None,
            fraction: None,
            confirm_delete: None,
            deleting: None,
            switching: None,
            hardware: None,
            hardware_loading: false,
        };
        proof {
            assert(r@.models =~= Seq::empty());
            assert(r@.input =~= Seq::empty());
        }
        r
    }

    /// Opens the dialog. The result says whether the hardware is to be looked
    /// at.
    pub fn open(&mut self) -> (r: bool)
        ensures
            final(self)@ == old(self)@.opened(),
            r == old(self)@.wants_hardware(),
    {
        self.input = String::new();
        assert(self@.input =~= Seq::empty());
        self.selected = 0;
        self.running = false;
        self.status = None;
        self.fraction = None;
        self.confirm_delete = None;
        self.deleting = None;
        self.loading = true;
        if self.hardware.is_none() && !self.hardware_loading {
            self.hardware_loading = true;
            true
        } else {
            false
        }
    }

    fn choice(&self) -> (r: Option<String>)
        ensures
            match r {
                Some(s) => self@.choice() == Some(s@),
                None => self@.choice() is None,
            },
    {
        if self.selected < self.models.len() {
            Some(self.models[self.selected].path.clone())
        } else {
            None
        }
    }

    fn is_busy(&self) -> (r: bool)
        ensures
            r == self@.busy(),
    {
        self.running || self.deleting.is_some() || self.switching.is_some()
    }

    /// Starts downloading what was typed.
    pub fn start_llama_cpp_download(&mut self) -> (r: Reaction)
        ensures
            final(self)@ == old(self)@.download().0,
            r@ == old(self)@.download().1,
    {
        let source = text::trim(self.input.as_str());
        if self.running || source.as_str().is_empty() {
            return stay();
        }
        self.running = true;
        self.status = Some("resolving…".to_string());
        self.fraction = None;
        do_one(Effect::DownloadLocal { source })
    }

    /// Starts deleting a file.
    pub fn start_llama_cpp_delete(&mut self, path: String) -> (r: Reaction)
        ensures
            final(self)@ == old(self)@.delete(path@).0,
            r@ == old(self)@.delete(path@).1,
    {
        if self.is_busy() {
            return stay();
        }
        self.deleting = Some(path.clone());
        do_one(Effect::DeleteLocal { path })
    }

    /// Starts loading a file.
    pub fn start_llama_cpp_switch(&mut self, path: String) -> (r: Reaction)
        ensures
            final(self)@ == old(self)@.switch(path@).0,
            r@ == old(self)@.switch(path@).1,
    {
        if self.is_busy() {
            return stay();
        }
        self.switching = Some(path.clone());
        do_one(Effect::SwitchLocal { path })
    }

    /// Takes a key.
    pub fn on_key(&mut self, k: &KeyPress) -> (r: Reaction)
        ensures
            final(self)@ == old(self)@.on_key(*k).0,
            r@ == old(self)@.on_key(*k).1,
    {
        if let Some(path) = &self.confirm_delete {
            let path = path.clone();
            if is_confirm(k.code) {
                self.confirm_delete = None;
                return self.start_llama_cpp_delete(path);
            }
            if is_call_off(k.code) {
                self.confirm_delete = None;
            }
            return stay();
        }
        if k.bound.cancel {
            self.running = false;
            self.deleting = None;
            self.switching = None;
            self.status = None;
            self.fraction = None;
            return Reaction { effects: effects::only(Effect::AbortLocalTasks), close: true };
        }
        if self.is_busy() {
            return stay();
        }
        if k.bound.up {
            self.selected = move_up(self.selected);
            return stay();
        }
        if k.bound.down {
            if self.models.len() > 0 {
                self.selected = move_down(self.selected, 1, self.models.len());
            }
            return stay();
        }
        if k.code == KeyCode::Delete {
            if let Some(path) = self.choice() {
                self.confirm_delete = Some(path);
            }
            return stay();
        }
        if k.bound.enter {
            let typed = text::trim(self.input.as_str());
            if !typed.as_str().is_empty() {
                return self.start_llama_cpp_download();
            }
            return match self.choice() {
                Some(path) => self.start_llama_cpp_switch(path),
                None => stay(),
            };
        }
        match k.code {
            KeyCode::Char(c) => {
                self.input = with_char(&self.input, c);
            },
            KeyCode::Backspace => {
                self.input = drop_last_char(&self.input);
            },
            _ => {},
        }
        stay()
    }

    /// Takes the files that are there.
    pub fn set_models(&mut self, models: Vec<LocalModel>)
        ensures
            final(self)@ == (LocalView {
                models: local_views(models@),
                selected: 0,
                loading: false,
                ..old(self)@
            }),
    {
        self.loading = false;
        self.models = models;
        self.selected = 0;
    }

    /// Takes what hardware there is.
    pub fn set_hardware(&mut self, hardware: String)
        ensures
            final(self)@ == (LocalView {
                hardware: Some(hardware@),
                hardware_loading: false,
                ..old(self)@
            }),
    {
        self.hardware_loading = false;
        self.hardware = Some(hardware);
    }

    /// A file has been deleted, if `gone`, or could not be.
    pub fn on_deleted(&mut self, path: &str, gone: bool)
        ensures
            final(self)@ == old(self)@.deleted(path@, gone),
    {
        self.deleting = None;
        if gone {
            let ghost all = local_views(self.models@);
            let mut kept: Vec<LocalModel> = Vec::new();
            let mut i: usize = 0;
            assert(local_views(kept@) =~= elsewhere(all.take(0), path@));
            while i < self.models.len()
                invariant
                    i <= self.models@.len(),
                    all == local_views(self.models@),
                    local_views(kept@) == elsewhere(all.take(i as int), path@),
                    self@ == (LocalView { deleting: None, ..old(self)@ }),
                decreases self.models@.len() - i,
            {
                let ghost before = local_views(kept@);
                let m = &self.models[i];
                proof {
                    assert(all.take(i as int + 1).drop_last() =~= all.take(i as int));
                    assert(all.take(i as int + 1).last() == (m.path@, m.name@));
                }
                if !text::same(m.path.as_str(), path) {
                    kept.push(LocalModel { path: m.path.clone(), name: m.name.clone() });
                    assert(local_views(kept@) =~= before.push((m.path@, m.name@)));
                }
                i = i + 1;
            }
            assert(all.take(self.models@.len() as int) =~= all);
            self.selected = move_down(self.selected, 0, kept.len());
            self.models = kept;
        }
    }
}

/// A busy dialog takes no key but the one that cancels: nothing else is started
/// and nothing is changed, so that only one thing happens at a time.
pub proof fn a_busy_dialog_only_cancels(d: DownloadView, l: LocalView, k: KeyPress)
    requires
        !k.bound.cancel,
    ensures
        d.busy() && d.confirm_delete is None ==> d.on_key(k) == (d, no_reaction()),
        l.busy() && l.confirm_delete is None ==> l.on_key(k) == (l, no_reaction()),
{
}

/// Nothing is deleted without a yes: the key that asks for a deletion only asks,
/// and only a key that confirms starts one.
pub proof fn nothing_is_deleted_unasked(d: DownloadView, l: LocalView, k: KeyPress)
    ensures
        d.deleting is None && d.on_key(k).0.deleting is Some ==> d.confirm_delete is Some
            && confirms(k.code) && d.on_key(k).0.deleting == d.confirm_delete,
        l.deleting is None && l.on_key(k).0.deleting is Some ==> l.confirm_delete is Some
            && confirms(k.code) && l.on_key(k).0.deleting == l.confirm_delete,
        d.confirm_delete is None && d.on_key(k).0.confirm_delete is Some ==> d.installed.contains(
            d.on_key(k).0.confirm_delete.unwrap(),
        ),
{
}

} // verus!
