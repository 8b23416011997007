//! What the application asks of the world around it.

use crate::tui::plan::{PlanDocument, PlanView};
use crate::types;
use vstd::prelude::*;

verus! {

/// Something to be done outside of the application's state.
#[derive(Debug)]
pub enum Effect {
    /// Read the list of sessions.
    ReloadSessions,
    /// Make a new session of this title.
    CreateSession { title: String },
    /// Read a session and its messages, and go to the chat if asked to.
    LoadSession { id: u128, show_chat: bool },
    /// Store the current session.
    SaveSession,
    /// Delete the messages of a session.
    DeleteMessages { session: u128 },
    /// Send a message to the agent.
    Send { session: u128, content: String, read_only: bool },
    /// Store a plan.
    SavePlan { session: u128, plan: PlanDocument },
    /// Store a plan that was only in a file.
    MigratePlan { plan: PlanDocument },
    /// Write the current plan to a file of this name.
    ExportPlan { file_name: String },
    /// Look for the session's plan in the database.
    FindPlan { session: u128, to_view: bool },
    /// Look for the session's plan in the file of this name.
    ReadPlanFile { file_name: String, to_view: bool },
    /// Put the tasks of the current plan in the order of their dependencies.
    OrderTasks,
    /// Look for a skill of this name. `content` is the whole input, `arguments`
    /// what follows the name.
    ResolveSkill { name: String, content: String, arguments: String },
    /// List the skills.
    ListSkills,
    /// List a directory.
    ListDirectory { path: String },
    /// See what is at a path.
    OpenEntry { path: String },
    /// Put a response, or the last code block in it, on the clipboard.
    CopyResponse { content: String },
    /// Read the clipboard.
    ReadClipboard,
    /// Filter the model suggestions by the input of the download dialog.
    FilterSuggestions,
    /// List the models that are installed, for one dialog or the other.
    FetchInstalled { for_switch: bool },
    /// Pull a model.
    PullModel { model: String },
    /// Delete an installed model.
    DeleteModel { model: String },
    /// Stop pulling and deleting models.
    AbortModelTasks,
    /// Make a provider for an installed model and switch to it.
    SwitchToOllama { model: String },
    /// List the model files.
    ListLocalModels,
    /// See what hardware there is.
    DetectHardware,
    /// Download a model file.
    DownloadLocal { source: String },
    /// Delete a model file.
    DeleteLocal { path: String },
    /// Load a model file and switch to it.
    SwitchLocal { path: String },
    /// Stop downloading, deleting and loading model files.
    AbortLocalTasks,
    /// Answer a request for approval.
    Respond { request: u128, approved: bool, reason: Option<String> },
}

/// What an [`Effect`] holds.
pub enum EffectView {
    ReloadSessions,
    CreateSession { title: Seq<char> },
    LoadSession { id: u128, show_chat: bool },
    SaveSession,
    DeleteMessages { session: u128 },
    Send { session: u128, content: Seq<char>, read_only: bool },
    SavePlan { session: u128, plan: PlanView },
    MigratePlan { plan: PlanView },
    ExportPlan { file_name: Seq<char> },
    FindPlan { session: u128, to_view: bool },
    ReadPlanFile { file_name: Seq<char>, to_view: bool },
    OrderTasks,
    ResolveSkill { name: Seq<char>, content: Seq<char>, arguments: Seq<char> },
    ListSkills,
    ListDirectory { path: Seq<char> },
    OpenEntry { path: Seq<char> },
    CopyResponse { content: Seq<char> },
    ReadClipboard,
    FilterSuggestions,
    FetchInstalled { for_switch: bool },
    PullModel { model: Seq<char> },
    DeleteModel { model: Seq<char> },
    AbortModelTasks,
    SwitchToOllama { model: Seq<char> },
    ListLocalModels,
    DetectHardware,
    DownloadLocal { source: Seq<char> },
    DeleteLocal { path: Seq<char> },
    SwitchLocal { path: Seq<char> },
    AbortLocalTasks,
    Respond { request: u128, approved: bool, reason: Option<Seq<char>> },
}

impl View for Effect {
    type V = EffectView;

    open spec fn view(&self) -> EffectView {
        match *self {
            Effect::ReloadSessions => EffectView::ReloadSessions,
            Effect::CreateSession { title } => EffectView::CreateSession { title: title@ },
            Effect::LoadSession { id, show_chat } => EffectView::LoadSession { id, show_chat },
            Effect::SaveSession => EffectView::SaveSession,
            Effect::DeleteMessages { session } => EffectView::DeleteMessages { session },
            Effect::Send { session, content, read_only } => EffectView::Send {
                session,
                content: content@,
                read_only,
            },
            Effect::SavePlan { session, plan } => EffectView::SavePlan { session, plan: plan@ },
            Effect::MigratePlan { plan } => EffectView::MigratePlan { plan: plan@ },
            Effect::ExportPlan { file_name } => EffectView::ExportPlan { file_name: file_name@ },
            Effect::FindPlan { session, to_view } => EffectView::FindPlan { session, to_view },
            Effect::ReadPlanFile { file_name, to_view } => EffectView::ReadPlanFile {
                file_name: file_name@,
                to_view,
            },
            Effect::OrderTasks => EffectView::OrderTasks,
            Effect::ResolveSkill { name, content, arguments } => EffectView::ResolveSkill {
                name: name@,
                content: content@,
                arguments: arguments@,
            },
            Effect::ListSkills => EffectView::ListSkills,
            Effect::ListDirectory { path } => EffectView::ListDirectory { path: path@ },
            Effect::OpenEntry { path } => EffectView::OpenEntry { path: path@ },
            Effect::CopyResponse { content } => EffectView::CopyResponse { content: content@ },
            Effect::ReadClipboard => EffectView::ReadClipboard,
            Effect::FilterSuggestions => EffectView::FilterSuggestions,
            Effect::FetchInstalled { for_switch } => EffectView::FetchInstalled { for_switch },
            Effect::PullModel { model } => EffectView::PullModel { model: model@ },
            Effect::DeleteModel { model } => EffectView::DeleteModel { model: model@ },
            Effect::AbortModelTasks => EffectView::AbortModelTasks,
            Effect::SwitchToOllama { model } => EffectView::SwitchToOllama { model: model@ },
            Effect::ListLocalModels => EffectView::ListLocalModels,
            Effect::DetectHardware => EffectView::DetectHardware,
            Effect::DownloadLocal { source } => EffectView::DownloadLocal { source: source@ },
            Effect::DeleteLocal { path } => EffectView::DeleteLocal { path: path@ },
            Effect::SwitchLocal { path } => EffectView::SwitchLocal { path: path@ },
            Effect::AbortLocalTasks => EffectView::AbortLocalTasks,
            Effect::Respond { request, approved, reason } => EffectView::Respond {
                request,
                approved,
                reason: types::opt_text(reason),
            },
        }
    }
}

/// What the effects of a list hold.
pub open spec fn effect_views(v: Seq<Effect>) -> Seq<EffectView> {
    Seq::new(v.len(), |i: int| v[i]@)
}

/// No effects.
pub fn nothing() -> (r: Vec<Effect>)
    ensures
        effect_views(r@) == Seq::<EffectView>::empty(),
{
    let r: Vec<Effect> = Vec::new();
    assert(effect_views(r@) =~= Seq::empty());
    r
}

/// One effect.
pub fn only(e: Effect) -> (r: Vec<Effect>)
    ensures
        effect_views(r@) == seq![e@],
{
    let r: Vec<Effect> = vec![e];
    assert(effect_views(r@) =~= seq![e@]);
    r
}

/// Adds an effect.
pub fn then_do(v: &mut Vec<Effect>, e: Effect)
    ensures
        effect_views(final(v)@) == effect_views(old(v)@).push(e@),
{
    let ghost before = effect_views(v@);
    v.push(e);
    assert(effect_views(v@) =~= before.push(e@));
}

/// Adds effects.
pub fn then_all(v: &mut Vec<Effect>, more: Vec<Effect>)
    ensures
        effect_views(final(v)@) == effect_views(old(v)@) + effect_views(more@),
{
    let ghost before = effect_views(v@);
    let mut more = more;
    let ghost added = effect_views(more@);
    v.append(&mut more);
    assert(effect_views(v@) =~= before + added);
}

} // verus!
