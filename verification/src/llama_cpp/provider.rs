//! The provider around a model in this process.

use crate::llama_cpp::sampling;
use crate::llama_cpp::sampling::SamplingDefaults;
use crate::text;
use crate::types;
use crate::types::{Float32, LLMResponse, ProviderError};
use vstd::prelude::*;
use vstd::string::*;

verus! {

/// How the model is set up.
#[derive(Clone, Debug)]
pub struct LlamaCppProviderConfig {
    pub model_path: String,
    pub display_name: Option<String>,
    pub n_ctx: u32,
    pub n_gpu_layers: u32,
    pub n_threads: Option<u32>,
    pub chat_template: Option<String>,
    pub temperature: Option<Float32>,
    pub top_p: Option<Float32>,
    pub top_k: Option<u32>,
    pub repeat_penalty: Option<Float32>,
    pub seed: Option<u32>,
    pub idle_unload_secs: Option<u64>,
}

/// What a [`LlamaCppProviderConfig`] holds.
pub struct ConfigView {
    pub model_path: Seq<char>,
    pub display_name: Option<Seq<char>>,
    pub n_ctx: u32,
    pub n_gpu_layers: u32,
    pub n_threads: Option<u32>,
    pub chat_template: Option<Seq<char>>,
    pub temperature: Option<Float32>,
    pub top_p: Option<Float32>,
    pub top_k: Option<u32>,
    pub repeat_penalty: Option<Float32>,
    pub seed: Option<u32>,
    pub idle_unload_secs: Option<u64>,
}

impl View for LlamaCppProviderConfig {
    type V = ConfigView;

    open spec fn view(&self) -> ConfigView {
        ConfigView {
            model_path: self.model_path@,
            display_name: types::opt_text(self.display_name),
            n_ctx: self.n_ctx,
            n_gpu_layers: self.n_gpu_layers,
            n_threads: self.n_threads,
            chat_template: types::opt_text(self.chat_template),
            temperature: self.temperature,
            top_p: self.top_p,
            top_k: self.top_k,
            repeat_penalty: self.repeat_penalty,
            seed: self.seed,
            idle_unload_secs: self.idle_unload_secs,
        }
    }
}

/// What an optional configuration holds.
pub open spec fn opt_config(c: Option<LlamaCppProviderConfig>) -> Option<ConfigView> {
    match c {
        Some(c) => Some(c@),
        None => None,
    }
}

/// What the thread that holds the model starts from.
#[derive(Clone, Debug)]
pub struct WorkerInit {
    pub model_path: String,
    pub display_name: String,
    pub n_ctx: u32,
    pub n_gpu_layers: u32,
    pub n_threads: u32,
    pub chat_template_override: Option<String>,
    pub sampling_defaults: SamplingDefaults,
    pub seed: Option<u32>,
    pub idle_unload_secs: Option<u64>,
    /// Whether layers were asked onto a GPU that this build cannot use.
    pub warn_no_gpu: bool,
}

/// A provider whose model is loaded.
#[derive(Clone, Debug)]
pub struct LlamaCppProvider {
    pub model_path: String,
    pub display_name: String,
    pub n_ctx: u32,
}

/// What came of loading the model.
#[derive(Clone, Debug)]
pub enum LoadOutcome {
    /// It is loaded, with a context window of this size.
    Ready(u32),
    /// It could not be loaded.
    Failed(String),
    /// The thread ended without a word.
    Silent,
}

/// Whether a feature of a build is a GPU backend.
pub open spec fn is_gpu_backend(feature: Seq<char>) -> bool {
    ||| feature == "llama-cpp-cuda"@
    ||| feature == "llama-cpp-metal"@
    ||| feature == "llama-cpp-vulkan"@
    ||| feature == "llama-cpp-rocm"@
    ||| feature == "llama-cpp-opencl"@
    ||| feature == "llama-cpp-mkl"@
}

/// Whether a build with these features has a GPU backend.
pub open spec fn has_gpu_backend(features: Seq<String>) -> bool {
    exists|i: int| 0 <= i < features.len() && is_gpu_backend((#[trigger] features[i])@)
}

/// Whether a build with these features has a GPU backend.
pub fn gpu_backend_compiled_in(features: &Vec<String>) -> (r: bool)
    ensures
        r == has_gpu_backend(features@),
{
    let mut i: usize = 0;
    while i < features.len()
        invariant
            i <= features@.len(),
            forall|k: int| 0 <= k < i ==> !is_gpu_backend((#[trigger] features@[k])@),
        decreases features@.len() - i,
    {
        let f = features[i].as_str();
        if text::same(f, "llama-cpp-cuda") || text::same(f, "llama-cpp-metal") || text::same(
            f,
            "llama-cpp-vulkan",
        ) || text::same(f, "llama-cpp-rocm") || text::same(f, "llama-cpp-opencl") || text::same(
            f,
            "llama-cpp-mkl",
        ) {
            assert(is_gpu_backend(features@[i as int]@));
            return true;
        }
        i = i + 1;
    }
    false
}

/// The name that is shown: the one that was set, or else the file's, or else a
/// general one.
pub open spec fn shown_name(set: Option<Seq<char>>, file_stem: Option<Seq<char>>) -> Seq<char> {
    match set {
        Some(n) => n,
        None => match file_stem {
            Some(s) => s,
            None => "llama-cpp-model"@,
        },
    }
}

/// `k` as a signed number of the same bits.
pub open spec fn as_signed(k: u32) -> i32 {
    if k <= i32::MAX {
        k as i32
    } else {
        (k - 0x1_0000_0000) as i32
    }
}

pub(crate) fn to_signed(k: u32) -> (r: i32)
    ensures
        r == as_signed(k),
{
    if k <= 0x7fff_ffff {
        k as i32
    } else {
        let below: u32 = 0xffff_ffff - k;
        -1 - (below as i32)
    }
}

fn copy_option(s: &Option<String>) -> (r: Option<String>)
    ensures
        types::opt_text(r) == types::opt_text(*s),
{
    match s {
        Some(x) => Some(x.clone()),
        None => None,
    }
}

/// What the thread that holds the model starts from. `model_exists` says
/// whether the file is there, `file_stem` is its name without the extension,
/// `parallelism` the number of threads that the machine runs at once, if it is
/// known, and `features` what the program was built with.
pub fn plan_worker(
    config: &LlamaCppProviderConfig,
    model_exists: bool,
    file_stem: Option<String>,
    parallelism: Option<u32>,
    features: &Vec<String>,
) -> (r: Result<WorkerInit, ProviderError>)
    ensures
        match r {
            Ok(w) => {
                &&& model_exists
                &&& w.model_path@ == config.model_path@
                &&& w.display_name@ == shown_name(
                    types::opt_text(config.display_name),
                    types::opt_text(file_stem),
                )
                &&& w.n_ctx == config.n_ctx
                &&& w.n_gpu_layers == config.n_gpu_layers
                &&& w.n_threads == (match config.n_threads {
                    Some(n) => n,
                    None => match parallelism {
                        Some(n) => n,
                        None => 4,
                    },
                })
                &&& types::opt_text(w.chat_template_override) == types::opt_text(
                    config.chat_template,
                )
                &&& w.sampling_defaults == (SamplingDefaults {
                    temperature: sampling::or_default(
                        config.temperature,
                        Float32 { bits: sampling::DEFAULT_TEMPERATURE },
                    ),
                    top_p: sampling::or_default(
                        config.top_p,
                        Float32 { bits: sampling::DEFAULT_TOP_P },
                    ),
                    top_k: match config.top_k {
                        Some(k) => as_signed(k),
                        None => 40,
                    },
                    repeat_penalty: sampling::or_default(
                        config.repeat_penalty,
                        Float32 { bits: sampling::DEFAULT_REPEAT_PENALTY },
                    ),
                })
                &&& w.seed == config.seed
                &&& w.idle_unload_secs == config.idle_unload_secs
                &&& w.warn_no_gpu == (config.n_gpu_layers > 0 && !has_gpu_backend(features@))
            },
            Err(e) => !model_exists && e@ == types::ErrorView::ModelNotFound(
                "llama.cpp model file not found: "@ + config.model_path@
                    + ". Check `providers.llama_cpp.model_path` in config.toml."@,
            ),
        },
{
    if !model_exists {
        let mut message = "llama.cpp model file not found: ".to_string();
        message.append(config.model_path.as_str());
        message.append(". Check `providers.llama_cpp.model_path` in config.toml.");
        return Err(ProviderError::ModelNotFound(message));
    }
    let display_name = match &config.display_name {
        Some(n) => n.clone(),
        None => match file_stem {
            Some(s) => s,
            None => "llama-cpp-model".to_string(),
        },
    };
    let n_threads: u32 = match config.n_threads {
        Some(n) => n,
        None => match parallelism {
            Some(n) => n,
            None => 4,
        },
    };
    let defaults = SamplingDefaults::default();
    let sampling_defaults = SamplingDefaults {
        temperature: match config.temperature {
            Some(v) => v,
            None => defaults.temperature,
        },
        top_p: match config.top_p {
            Some(v) => v,
            None => defaults.top_p,
        },
        top_k: match config.top_k {
            Some(k) => to_signed(k),
            None => 40,
        },
        repeat_penalty: match config.repeat_penalty {
            Some(v) => v,
            None => defaults.repeat_penalty,
        },
    };
    Ok(
        WorkerInit {
            model_path: config.model_path.clone(),
            display_name,
            n_ctx: config.n_ctx,
            n_gpu_layers: config.n_gpu_layers,
            n_threads,
            chat_template_override: copy_option(&config.chat_template),
            sampling_defaults,
            seed: config.seed,
            idle_unload_secs: config.idle_unload_secs,
            warn_no_gpu: config.n_gpu_layers > 0 && !gpu_backend_compiled_in(features),
        },
    )
}

impl LlamaCppProvider {
    /// The provider when its model was loaded, or why there is none.
    pub fn loaded(init: &WorkerInit, outcome: LoadOutcome) -> (r: Result<Self, ProviderError>)
        ensures
            match outcome {
                LoadOutcome::Ready(n) => r matches Ok(p) && p.model_path@ == init.model_path@
                    && p.display_name@ == init.display_name@ && p.n_ctx == n,
                LoadOutcome::Failed(m) => r matches Err(e) && e@ == types::ErrorView::Internal(
                    "failed to load llama.cpp model '"@ + init.model_path@ + "': "@ + m@,
                ),
                LoadOutcome::Silent => r matches Err(e) && e@ == types::ErrorView::Internal(
                    "llama.cpp worker thread exited before reporting load status"@,
                ),
            },
    {
        match outcome {
            LoadOutcome::Ready(n) => Ok(
                LlamaCppProvider {
                    model_path: init.model_path.clone(),
                    display_name: init.display_name.clone(),
                    n_ctx: n,
                },
            ),
            LoadOutcome::Failed(m) => {
                let mut message = "failed to load llama.cpp model '".to_string();
                message.append(init.model_path.as_str());
                message.append("': ");
                message.append(m.as_str());
                Err(ProviderError::Internal(message))
            },
            LoadOutcome::Silent => Err(
                ProviderError::Internal(
                    "llama.cpp worker thread exited before reporting load status".to_string(),
                ),
            ),
        }
    }

    /// Whether responses can be streamed: they can.
    pub fn supports_streaming(&self) -> (r: bool)
        ensures
            r,
    {
        true
    }

    /// Whether tools can be offered: they can, and calls are read from the text.
    pub fn supports_tools(&self) -> (r: bool)
        ensures
            r,
    {
        true
    }

    /// Whether images can be sent: they cannot.
    pub fn supports_vision(&self) -> (r: bool)
        ensures
            !r,
    {
        false
    }

    /// The provider's name.
    pub fn name(&self) -> (r: &'static str)
        ensures
            r@ == "llama-cpp"@,
    {
        "llama-cpp"
    }

    /// The only model.
    pub fn default_model(&self) -> (r: &str)
        ensures
            r@ == self.display_name@,
    {
        self.display_name.as_str()
    }

    /// The only model.
    pub fn supported_models(&self) -> (r: Vec<String>)
        ensures
            text::texts(r@) == seq![self.display_name@],
    {
        let r: Vec<String> = vec![self.display_name.clone()];
        assert(text::texts(r@) =~= seq![self.display_name@]);
        r
    }

    /// Whether `model` can be asked for. Any can, and the one model answers.
    pub fn validate_model(&self, model: &str) -> (r: bool)
        ensures
            r,
    {
        true
    }

    /// The context window that the model really has.
    pub fn context_window(&self, model: &str) -> (r: Option<u32>)
        ensures
            r == Some(self.n_ctx),
    {
        Some(self.n_ctx)
    }
}

/// What was thrown when a thread panicked.
#[derive(Clone, Debug)]
pub enum PanicPayload {
    /// A string slice.
    Str(String),
    /// An owned string.
    Owned(String),
    /// Something else.
    Other,
}

/// What a panic says.
pub open spec fn panic_text(payload: PanicPayload) -> Seq<char> {
    match payload {
        PanicPayload::Str(s) => s@,
        PanicPayload::Owned(s) => s@,
        PanicPayload::Other => "non-string panic payload"@,
    }
}

/// What a panic says.
pub fn panic_message(payload: &PanicPayload) -> (r: String)
    ensures
        r@ == panic_text(*payload),
{
    match payload {
        PanicPayload::Str(s) => s.clone(),
        PanicPayload::Owned(s) => s.clone(),
        PanicPayload::Other => "non-string panic payload".to_string(),
    }
}

/// The error for a request during which the model's thread panicked.
pub fn panic_to_provider_error(payload: &PanicPayload) -> (r: ProviderError)
    ensures
        r@ == types::ErrorView::Internal("llama.cpp inference panicked: "@ + panic_text(*payload)),
{
    let mut message = "llama.cpp inference panicked: ".to_string();
    let said = panic_message(payload);
    message.append(said.as_str());
    ProviderError::Internal(message)
}

/// What is answered to a request: what came of it, or that it panicked.
pub fn settle_complete(outcome: Result<Result<LLMResponse, ProviderError>, PanicPayload>) -> (r:
    Result<LLMResponse, ProviderError>)
    ensures
        match outcome {
            Ok(answer) => r == answer,
            Err(payload) => r matches Err(e) && e@ == types::ErrorView::Internal(
                "llama.cpp inference panicked: "@ + panic_text(payload),
            ),
        },
{
    match outcome {
        Ok(answer) => answer,
        Err(payload) => Err(panic_to_provider_error(&payload)),
    }
}

/// What is still sent on a stream that came to its end: nothing, or that it
/// panicked.
pub fn settle_stream(outcome: Result<(), PanicPayload>) -> (r: Option<ProviderError>)
    ensures
        match outcome {
            Ok(_) => r is None,
            Err(payload) => r matches Some(e) && e@ == types::ErrorView::Internal(
                "llama.cpp inference panicked: "@ + panic_text(payload),
            ),
        },
{
    match outcome {
        Ok(_) => None,
        Err(payload) => Some(panic_to_provider_error(&payload)),
    }
}

/// How a request can fail before the model's thread answers it.
#[derive(Clone, Copy, PartialEq, Eq, Structural, Debug)]
pub enum WorkerGone {
    /// The thread does not take requests any more.
    BeforeSending,
    /// The thread let go of the request.
    BeforeAnswering,
}

/// The error for a request that the model's thread did not answer.
pub fn worker_gone(when: WorkerGone) -> (r: ProviderError)
    ensures
        r@ == types::ErrorView::Internal(
            match when {
                WorkerGone::BeforeSending => "llama.cpp worker thread is no longer running"@,
                WorkerGone::BeforeAnswering =>
                    "llama.cpp worker thread dropped the request without responding"@,
            },
        ),
{
    match when {
        WorkerGone::BeforeSending => ProviderError::Internal(
            "llama.cpp worker thread is no longer running".to_string(),
        ),
        WorkerGone::BeforeAnswering => ProviderError::Internal(
            "llama.cpp worker thread dropped the request without responding".to_string(),
        ),
    }
}

} // verus!
