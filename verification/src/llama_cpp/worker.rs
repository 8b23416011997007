//! When the thread that holds the model loads it, serves and lets it go.
//!
//! The thread does what an [`Action`] says and reports what came of it; each
//! report gives the next action.

use vstd::prelude::*;
use vstd::string::*;

verus! {

/// A step of loading the model.
#[derive(Clone, Copy, PartialEq, Eq, Structural, Debug)]
pub enum LoadStage {
    Backend,
    Model,
    Context,
}

/// What the thread does next.
#[derive(Debug)]
pub enum Action {
    /// Load the model.
    Load,
    /// Report that the model is loaded, with a window of this size.
    ReportReady(u32),
    /// Report why the model could not be loaded, and end.
    ReportFailureAndExit(String),
    /// Serve the request that the model was loaded again for.
    ServeCarriedOver,
    /// Serve the request that came in.
    Serve,
    /// See whether a request is there.
    TryReceive,
    /// Wait for a request.
    Receive,
    /// Rest a little before looking again.
    Rest,
    /// Let the model go and wait for a request.
    UnloadAndReceive,
    /// End.
    Exit,
}

/// What an [`Action`] is.
pub enum ActionView {
    Load,
    ReportReady(u32),
    ReportFailureAndExit(Seq<char>),
    ServeCarriedOver,
    Serve,
    TryReceive,
    Receive,
    Rest,
    UnloadAndReceive,
    Exit,
}

impl View for Action {
    type V = ActionView;

    open spec fn view(&self) -> ActionView {
        match *self {
            Action::Load => ActionView::Load,
            Action::ReportReady(n) => ActionView::ReportReady(n),
            Action::ReportFailureAndExit(m) => ActionView::ReportFailureAndExit(m@),
            Action::ServeCarriedOver => ActionView::ServeCarriedOver,
            Action::Serve => ActionView::Serve,
            Action::TryReceive => ActionView::TryReceive,
            Action::Receive => ActionView::Receive,
            Action::Rest => ActionView::Rest,
            Action::UnloadAndReceive => ActionView::UnloadAndReceive,
            Action::Exit => ActionView::Exit,
        }
    }
}

/// What came of looking for a request.
#[derive(Clone, Copy, PartialEq, Eq, Structural, Debug)]
pub enum Received {
    Job,
    Nothing,
    Closed,
}

/// The state of the thread.
#[derive(Debug)]
pub struct Worker {
    /// Whether it has reported how the first load went.
    pub reported: bool,
    /// Whether the model is loaded.
    pub loaded: bool,
    /// Whether a request waits for the model to be loaded again.
    pub carried_over: bool,
    /// After how many idle seconds the model is let go.
    pub idle_unload_secs: Option<u64>,
}

/// What is said of a load that failed.
pub open spec fn load_failure(stage: LoadStage, detail: Seq<char>) -> Seq<char> {
    match stage {
        LoadStage::Backend => "failed to init llama.cpp backend: "@ + detail,
        LoadStage::Model => "failed to load GGUF file: "@ + detail,
        LoadStage::Context => "failed to create llama.cpp context: "@ + detail,
    }
}

/// Whether an action reports how a load went.
pub open spec fn is_report(a: Action) -> bool {
    a is ReportReady || a is ReportFailureAndExit
}

impl Worker {
    /// A request waits to be carried over only after the first load.
    pub open spec fn wf(&self) -> bool {
        self.carried_over ==> self.reported
    }

    /// How a thread starts.
    pub open spec fn fresh(idle_unload_secs: Option<u64>) -> Worker {
        Worker { reported: false, loaded: false, carried_over: false, idle_unload_secs }
    }

    /// The thread, and what it does, when the model could not be loaded.
    pub open spec fn load_failed(self, stage: LoadStage, detail: Seq<char>) -> (
        Worker,
        ActionView,
    ) {
        (
            Worker { reported: true, ..self },
            if self.reported {
                ActionView::Exit
            } else {
                ActionView::ReportFailureAndExit(load_failure(stage, detail))
            },
        )
    }

    /// The thread, and what it does, where it serves the request that waits, if
    /// there is one.
    pub open spec fn serving(self) -> (Worker, ActionView) {
        (
            Worker { carried_over: false, ..self },
            if self.carried_over {
                ActionView::ServeCarriedOver
            } else {
                self.waiting()@
            },
        )
    }

    /// The thread, and what it does, when the model is loaded.
    pub open spec fn load_done(self, n_ctx: u32) -> (Worker, ActionView) {
        let loaded = Worker { loaded: true, reported: true, ..self };
        if self.reported {
            loaded.serving()
        } else {
            (loaded, ActionView::ReportReady(n_ctx))
        }
    }

    /// The thread, and what it does, when it was or was not heard.
    pub open spec fn report_done(self, heard: bool) -> (Worker, ActionView) {
        if heard {
            self.serving()
        } else {
            (self, ActionView::Exit)
        }
    }

    /// The thread, and what it does, when it looked for a request.
    pub open spec fn polled(self, received: Received, idle_secs: u64) -> (Worker, ActionView) {
        match received {
            Received::Job => (self, ActionView::Serve),
            Received::Closed => (self, ActionView::Exit),
            Received::Nothing => if idle_secs >= self.idle_unload_secs.unwrap() {
                (Worker { loaded: false, ..self }, ActionView::UnloadAndReceive)
            } else {
                (self, ActionView::Rest)
            },
        }
    }

    /// The thread, and what it does, when it waited for a request.
    pub open spec fn request_came(self, got_job: bool) -> (Worker, ActionView) {
        if !got_job {
            (self, ActionView::Exit)
        } else if self.loaded {
            (self, ActionView::Serve)
        } else {
            (Worker { carried_over: true, ..self }, ActionView::Load)
        }
    }

    /// How a thread starts: by loading the model.
    pub fn new(idle_unload_secs: Option<u64>) -> (r: (Self, Action))
        ensures
            r.0.wf(),
            r.0 == (Worker {
                reported: false,
                loaded: false,
                carried_over: false,
                idle_unload_secs,
            }),
            r.0 == Worker::fresh(idle_unload_secs),
            r.1 is Load,
    {
        (
            Worker { reported: false, loaded: false, carried_over: false, idle_unload_secs },
            Action::Load,
        )
    }

    /// The model could not be loaded. Only the first load is reported.
    pub fn on_load_failed(&mut self, stage: LoadStage, detail: &str) -> (r: Action)
        requires
            old(self).wf(),
            !old(self).loaded,
        ensures
            final(self).wf(),
            *final(self) == (Worker { reported: true, ..*old(self) }),
            if old(self).reported {
                r is Exit
            } else {
                r matches Action::ReportFailureAndExit(m) && m@ == load_failure(stage, detail@)
            },
            is_report(r) <==> !old(self).reported,
            (*final(self), r@) == old(self).load_failed(stage, detail@),
    {
        if self.reported {
            return Action::Exit;
        }
        self.reported = true;
        let mut message = match stage {
            LoadStage::Backend => "failed to init llama.cpp backend: ".to_string(),
            LoadStage::Model => "failed to load GGUF file: ".to_string(),
            LoadStage::Context => "failed to create llama.cpp context: ".to_string(),
        };
        message.append(detail);
        Action::ReportFailureAndExit(message)
    }

    /// The model is loaded, with a window of `n_ctx`. Only the first load is
    /// reported; after a later one the request that waits is served.
    pub fn on_loaded(&mut self, n_ctx: u32) -> (r: Action)
        requires
            old(self).wf(),
            !old(self).loaded,
        ensures
            final(self).wf(),
            final(self).loaded,
            final(self).reported,
            final(self).idle_unload_secs == old(self).idle_unload_secs,
            if !old(self).reported {
                r == Action::ReportReady(n_ctx) && final(self).carried_over
                    == old(self).carried_over
            } else if old(self).carried_over {
                r is ServeCarriedOver && !final(self).carried_over
            } else {
                r == final(self).waiting() && !final(self).carried_over
            },
            is_report(r) <==> !old(self).reported,
            (*final(self), r@) == old(self).load_done(n_ctx),
    {
        self.loaded = true;
        if !self.reported {
            self.reported = true;
            return Action::ReportReady(n_ctx);
        }
        self.serve_first()
    }

    /// Whether anyone still heard that the model is loaded.
    pub fn on_reported(&mut self, heard: bool) -> (r: Action)
        requires
            old(self).wf(),
            old(self).loaded,
        ensures
            final(self).wf(),
            !heard ==> r is Exit && *final(self) == *old(self),
            heard ==> *final(self) == (Worker { carried_over: false, ..*old(self) }),
            heard && old(self).carried_over ==> r is ServeCarriedOver,
            heard && !old(self).carried_over ==> r == old(self).waiting(),
            !is_report(r),
            (*final(self), r@) == old(self).report_done(heard),
    {
        if !heard {
            return Action::Exit;
        }
        self.serve_first()
    }

    /// How the next request is waited for: by looking again and again where the
    /// model is let go when it is idle, and otherwise at rest.
    pub open spec fn waiting(&self) -> Action {
        match self.idle_unload_secs {
            Some(_) => Action::TryReceive,
            None => Action::Receive,
        }
    }

    fn wait(&self) -> (r: Action)
        ensures
            r == self.waiting(),
    {
        match self.idle_unload_secs {
            Some(_) => Action::TryReceive,
            None => Action::Receive,
        }
    }

    fn serve_first(&mut self) -> (r: Action)
        ensures
            *final(self) == (Worker { carried_over: false, ..*old(self) }),
            if old(self).carried_over {
                r is ServeCarriedOver
            } else {
                r == old(self).waiting()
            },
    {
        if self.carried_over {
            self.carried_over = false;
            Action::ServeCarriedOver
        } else {
            self.wait()
        }
    }

    /// A request was served.
    pub fn on_served(&self) -> (r: Action)
        ensures
            r == self.waiting(),
    {
        self.wait()
    }

    /// What came of looking for a request, `idle_secs` whole seconds after the
    /// last one was served.
    pub fn on_polled(&mut self, received: Received, idle_secs: u64) -> (r: Action)
        requires
            old(self).wf(),
            old(self).loaded,
            old(self).idle_unload_secs is Some,
        ensures
            final(self).wf(),
            received == Received::Job ==> r is Serve && *final(self) == *old(self),
            received == Received::Closed ==> r is Exit && *final(self) == *old(self),
            received == Received::Nothing ==> {
                let over = idle_secs >= old(self).idle_unload_secs.unwrap();
                &&& over ==> r is UnloadAndReceive && *final(self) == (Worker {
                    loaded: false,
                    ..*old(self)
                })
                &&& !over ==> r is Rest && *final(self) == *old(self)
            },
            !is_report(r),
            (*final(self), r@) == old(self).polled(received, idle_secs),
    {
        match received {
            Received::Job => Action::Serve,
            Received::Closed => Action::Exit,
            Received::Nothing => {
                let limit: u64 = match self.idle_unload_secs {
                    Some(n) => n,
                    None => 0,
                };
                if idle_secs >= limit {
                    self.loaded = false;
                    Action::UnloadAndReceive
                } else {
                    Action::Rest
                }
            },
        }
    }

    /// What came of waiting for a request. Where the model is not loaded, a
    /// request has it loaded again; the request waits for that.
    pub fn on_received(&mut self, got_job: bool) -> (r: Action)
        requires
            old(self).wf(),
            old(self).reported,
        ensures
            final(self).wf(),
            !got_job ==> r is Exit && *final(self) == *old(self),
            got_job && old(self).loaded ==> r is Serve && *final(self) == *old(self),
            got_job && !old(self).loaded ==> r is Load && *final(self) == (Worker {
                carried_over: true,
                ..*old(self)
            }),
            !is_report(r),
            (*final(self), r@) == old(self).request_came(got_job),
    {
        if !got_job {
            return Action::Exit;
        }
        if self.loaded {
            return Action::Serve;
        }
        self.carried_over = true;
        Action::Load
    }
}

/// How the first load went is reported, and no other: from then on a thread that
/// loads the model again serves the request it was loaded for.
pub proof fn only_the_first_load_is_reported(
    w: Worker,
    n_ctx: u32,
    later: u32,
    stage: LoadStage,
    detail: Seq<char>,
    idle: Option<u64>,
)
    requires
        w.wf(),
    ensures
        Worker::fresh(idle).load_done(n_ctx).1 == ActionView::ReportReady(n_ctx),
        Worker::fresh(idle).load_failed(stage, detail).1 == ActionView::ReportFailureAndExit(
            load_failure(stage, detail),
        ),
        w.load_done(n_ctx).0.reported,
        w.load_done(n_ctx).0.loaded,
        w.load_failed(stage, detail).0.reported,
        w.reported ==> !(w.load_done(n_ctx).1 is ReportReady) && !(w.load_done(n_ctx).1
            is ReportFailureAndExit) && w.load_failed(stage, detail).1 is Exit,
        !w.reported ==> w.load_done(n_ctx).1 == ActionView::ReportReady(n_ctx),
        !(w.load_done(n_ctx).0.load_done(later).1 is ReportReady),
{
}

/// A request that comes while the model is not loaded has it loaded, is kept until
/// then, and is served as soon as it is; once. One that comes while the model is
/// loaded is served at once.
pub proof fn a_request_is_served_once_the_model_is_loaded(w: Worker, n_ctx: u32, later: u32)
    requires
        w.wf(),
        w.reported,
    ensures
        !w.loaded ==> {
            let (kept, first) = w.request_came(true);
            let (after, second) = kept.load_done(n_ctx);
            &&& first is Load
            &&& kept.carried_over
            &&& second is ServeCarriedOver
            &&& after.loaded
            &&& !after.carried_over
            &&& !(after.load_done(later).1 is ServeCarriedOver)
        },
        w.loaded ==> w.request_came(true) == (w, ActionView::Serve),
        w.request_came(false) == (w, ActionView::Exit),
        w.report_done(false) == (w, ActionView::Exit),
        w.carried_over ==> w.report_done(true).1 is ServeCarriedOver,
{
}

/// The model is let go exactly where it has been idle for as long as is set; until
/// then the thread rests. A request is served and the end of requests ends the
/// thread, however long it was idle. Where nothing is set the thread waits without
/// looking, and the model stays.
pub proof fn an_idle_model_is_let_go(w: Worker, limit: u64, idle: u64)
    ensures
        w.idle_unload_secs == Some(limit) ==> {
            &&& idle >= limit ==> w.polled(Received::Nothing, idle) == (
                Worker { loaded: false, ..w },
                ActionView::UnloadAndReceive,
            )
            &&& idle < limit ==> w.polled(Received::Nothing, idle) == (w, ActionView::Rest)
            &&& w.waiting() is TryReceive
        },
        w.polled(Received::Job, idle) == (w, ActionView::Serve),
        w.polled(Received::Closed, idle) == (w, ActionView::Exit),
        w.idle_unload_secs is None ==> w.waiting() is Receive,
{
}

} // verus!
