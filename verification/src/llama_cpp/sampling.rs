//! How the next token is chosen.

use crate::types::{Float32, LLMRequest};
use vstd::prelude::*;

verus! {

/// 0.8 in single precision.
pub const DEFAULT_TEMPERATURE: u32 = 0x3f4c_cccd;

/// 0.95 in single precision.
pub const DEFAULT_TOP_P: u32 = 0x3f73_3333;

/// 1.1 in single precision.
pub const DEFAULT_REPEAT_PENALTY: u32 = 0x3f8c_cccd;

/// How many tokens a repetition penalty looks back.
pub const PENALTY_LAST_N: i32 = 64;

/// Sampling values for requests that give none.
#[derive(Clone, Copy, PartialEq, Eq, Structural, Debug)]
pub struct SamplingDefaults {
    pub temperature: Float32,
    pub top_p: Float32,
    pub top_k: i32,
    pub repeat_penalty: Float32,
}

impl Default for SamplingDefaults {
    fn default() -> (r: Self)
        ensures
            r == (SamplingDefaults {
                temperature: (Float32 { bits: DEFAULT_TEMPERATURE }),
                top_p: (Float32 { bits: DEFAULT_TOP_P }),
                top_k: 40,
                repeat_penalty: (Float32 { bits: DEFAULT_REPEAT_PENALTY }),
            }),
    {
        SamplingDefaults {
            temperature: Float32 { bits: DEFAULT_TEMPERATURE },
            top_p: Float32 { bits: DEFAULT_TOP_P },
            top_k: 40,
            repeat_penalty: Float32 { bits: DEFAULT_REPEAT_PENALTY },
        }
    }
}

/// One stage of a sampler chain.
#[derive(Clone, Copy, PartialEq, Eq, Structural, Debug)]
pub enum SamplerStage {
    /// Only tokens that continue a valid tool call.
    Grammar,
    /// The likeliest token.
    Greedy,
    /// Tokens that occurred before are made less likely.
    Penalties {
        n_vocab: i32,
        last_n: i32,
        repeat: Float32,
        frequency: Float32,
        presence: Float32,
    },
    /// Only the likeliest tokens, so many of them.
    TopK(i32),
    /// Only the likeliest tokens, up to this probability, at least so many.
    TopP(Float32, usize),
    /// The probabilities are sharpened or flattened.
    Temp(Float32),
    /// A token is drawn, from this seed.
    Dist(u32),
}

/// Whether the number is at most zero. Neither a positive number is, nor what
/// is no number.
pub open spec fn at_most_zero(x: Float32) -> bool {
    x.bits == 0 || 0x8000_0000 <= x.bits <= 0xff80_0000
}

/// The seed that `request` gives, if it fits.
pub open spec fn request_seed(seed: Option<i64>) -> Option<u32> {
    match seed {
        Some(s) => if 0 <= s <= u32::MAX {
            Some(s as u32)
        } else {
            None
        },
        None => None,
    }
}

/// The seed that is fixed: that of the request, or else the provider's. A seed
/// that does not fit counts as none.
pub fn fixed_seed(seed: Option<i64>, default_seed: Option<u32>) -> (r: Option<u32>)
    ensures
        r == (match request_seed(seed) {
            Some(s) => Some(s),
            None => default_seed,
        }),
{
    match seed {
        Some(s) => if 0 <= s && s <= 0xffff_ffff {
            Some(s as u32)
        } else {
            default_seed
        },
        None => default_seed,
    }
}

/// A random seed of `rand::random`. Nothing is told of it.
#[verifier::external_body]
pub(crate) fn random_seed() -> u32 {
    rand::random::<u32>()
}

/// What is set, or else the default.
pub open spec fn or_default(x: Option<Float32>, d: Float32) -> Float32 {
    match x {
        Some(v) => v,
        None => d,
    }
}

/// The sampler chain for a request: the grammar, if there is one, and then
/// either the likeliest token, where the temperature is at most zero, or the
/// penalties, the two cuts, the temperature and the draw.
pub open spec fn chain(
    n_vocab: i32,
    defaults: SamplingDefaults,
    request: LLMRequest,
    seed: u32,
    grammar: bool,
) -> Seq<SamplerStage> {
    let zero = Float32 { bits: 0 };
    let temperature = or_default(request.temperature, defaults.temperature);
    let head = if grammar {
        seq![SamplerStage::Grammar]
    } else {
        Seq::empty()
    };
    head + if at_most_zero(temperature) {
        seq![SamplerStage::Greedy]
    } else {
        seq![
            SamplerStage::Penalties {
                n_vocab,
                last_n: PENALTY_LAST_N,
                repeat: defaults.repeat_penalty,
                frequency: or_default(request.frequency_penalty, zero),
                presence: or_default(request.presence_penalty, zero),
            },
            SamplerStage::TopK(defaults.top_k),
            SamplerStage::TopP(or_default(request.top_p, defaults.top_p), 1),
            SamplerStage::Temp(temperature),
            SamplerStage::Dist(seed),
        ]
    }
}

fn set_or(x: Option<Float32>, d: Float32) -> (r: Float32)
    ensures
        r == or_default(x, d),
{
    match x {
        Some(v) => v,
        None => d,
    }
}

/// The sampler chain for a request that draws from `seed`.
pub fn sampler_chain(
    n_vocab: i32,
    defaults: &SamplingDefaults,
    request: &LLMRequest,
    seed: u32,
    grammar: bool,
) -> (r: Vec<SamplerStage>)
    ensures
        r@ == chain(n_vocab, *defaults, *request, seed, grammar),
{
    let zero = Float32 { bits: 0 };
    let temperature = set_or(request.temperature, defaults.temperature);
    let mut out: Vec<SamplerStage> = Vec::new();
    if grammar {
        out.push(SamplerStage::Grammar);
    }
    if temperature.bits == 0 || (0x8000_0000 <= temperature.bits && temperature.bits
        <= 0xff80_0000) {
        out.push(SamplerStage::Greedy);
    } else {
        out.push(
            SamplerStage::Penalties {
                n_vocab,
                last_n: PENALTY_LAST_N,
                repeat: defaults.repeat_penalty,
                frequency: set_or(request.frequency_penalty, zero),
                presence: set_or(request.presence_penalty, zero),
            },
        );
        out.push(SamplerStage::TopK(defaults.top_k));
        out.push(SamplerStage::TopP(set_or(request.top_p, defaults.top_p), 1));
        out.push(SamplerStage::Temp(temperature));
        out.push(SamplerStage::Dist(seed));
    }
    assert(out@ =~= chain(n_vocab, *defaults, *request, seed, grammar));
    out
}

/// `a + b` modulo two to the 32nd.
pub open spec fn shifted(a: u32, b: u32) -> u32 {
    ((a + b) % 0x1_0000_0000) as u32
}

/// Whether `stages` is the sampler chain for a request whose seed is that of the
/// request, or else the provider's, or else any, moved on by `offset`.
pub open spec fn is_chain(
    stages: Seq<SamplerStage>,
    n_vocab: i32,
    defaults: SamplingDefaults,
    request: LLMRequest,
    default_seed: Option<u32>,
    offset: u32,
    grammar: bool,
) -> bool {
    exists|seed: u32|
        stages == #[trigger] chain(n_vocab, defaults, request, shifted(seed, offset), grammar)
            && match (request_seed(request.seed), default_seed) {
            (Some(s), _) => seed == s,
            (None, Some(s)) => seed == s,
            (None, None) => true,
        }
}

/// The sampler chain for a request. The seed is that of the request, or else
/// the provider's, or else a random one, moved on by `seed_offset`.
pub fn build_sampler(
    n_vocab: i32,
    defaults: &SamplingDefaults,
    request: &LLMRequest,
    default_seed: Option<u32>,
    seed_offset: u32,
    grammar: bool,
) -> (r: Vec<SamplerStage>)
    ensures
        is_chain(r@, n_vocab, *defaults, *request, default_seed, seed_offset, grammar),
{
    let seed: u32 = match fixed_seed(request.seed, default_seed) {
        Some(s) => s,
        None => random_seed(),
    };
    let moved: u32 = seed.wrapping_add(seed_offset);
    assert(moved == shifted(seed, seed_offset));
    sampler_chain(n_vocab, defaults, request, moved, grammar)
}

/// The sampler chain that only writes calls to offered tools, for a response of
/// `generated_tokens` tokens so far. There is none without a grammar.
pub fn try_build_constrained_sampler(
    n_vocab: i32,
    grammar_available: bool,
    generated_tokens: &[i32],
    defaults: &SamplingDefaults,
    request: &LLMRequest,
    default_seed: Option<u32>,
) -> (r: Option<Vec<SamplerStage>>)
    ensures
        r is Some <==> grammar_available,
        r matches Some(c) ==> is_chain(
            c@,
            n_vocab,
            *defaults,
            *request,
            default_seed,
            (generated_tokens@.len() % 0x1_0000_0000) as u32,
            true,
        ),
{
    let count: u64 = generated_tokens.len() as u64;
    let offset: u32 = (count % 0x1_0000_0000) as u32;
    if grammar_available {
        Some(
            build_sampler(
                n_vocab,
                defaults,
                request,
                default_seed,
                offset,
                true,
            ),
        )
    } else {
        None
    }
}

/// How samplers are built for a model: the size of its vocabulary, the values for
/// requests that give none, and the seed for those without one.
#[derive(Clone, Copy, Debug)]
pub struct SamplerSetup {
    pub n_vocab: i32,
    pub defaults: SamplingDefaults,
    pub seed: Option<u32>,
}

/// Whether a sampler for tool calls is to be tried now: one is possible, none was
/// tried before, and the text commits to a call of an offered tool.
pub open spec fn swap_due(swap_possible: bool, attempted: bool, commits: bool) -> bool {
    swap_possible && !attempted && commits
}

/// Whether a sampler for tool calls is to be tried now.
pub fn swap_is_due(swap_possible: bool, attempted: bool, commits: bool) -> (r: bool)
    ensures
        r == swap_due(swap_possible, attempted, commits),
{
    swap_possible && !attempted && commits
}

/// Lets a sampler that only writes tool calls take over where the text commits to
/// a call of an offered tool. It is tried at most once in a response, and counts
/// as tried whether or not it could be built. The result says whether `sampler` is
/// another now. `grammar_available` says whether there is a grammar for the tools.
pub fn maybe_swap_to_constrained_sampler(
    setup: &SamplerSetup,
    request: &LLMRequest,
    commits: bool,
    swap_possible: bool,
    grammar_swap_attempted: &mut bool,
    grammar_available: bool,
    generated_tokens: &[i32],
    sampler: &mut Vec<SamplerStage>,
) -> (r: bool)
    ensures
        *final(grammar_swap_attempted) == (*old(grammar_swap_attempted) || swap_due(
            swap_possible,
            *old(grammar_swap_attempted),
            commits,
        )),
        r == (swap_due(swap_possible, *old(grammar_swap_attempted), commits) && grammar_available),
        r ==> is_chain(
            final(sampler)@,
            setup.n_vocab,
            setup.defaults,
            *request,
            setup.seed,
            (generated_tokens@.len() % 0x1_0000_0000) as u32,
            true,
        ),
        !r ==> *final(sampler) == *old(sampler),
{
    if !swap_is_due(swap_possible, *grammar_swap_attempted, commits) {
        return false;
    }
    *grammar_swap_attempted = true;
    match try_build_constrained_sampler(
        setup.n_vocab,
        grammar_available,
        generated_tokens,
        &setup.defaults,
        request,
        setup.seed,
    ) {
        Some(constrained) => {
            *sampler = constrained;
            true
        },
        None => false,
    }
}

/// Whether a sampler for tool calls was tried, when the texts of a response were
/// looked at one after the other. Each is true if it commits to a call.
pub open spec fn attempted_after(swap_possible: bool, texts: Seq<bool>) -> bool
    decreases texts.len(),
{
    if texts.len() == 0 {
        false
    } else {
        let before = attempted_after(swap_possible, texts.drop_last());
        before || swap_due(swap_possible, before, texts.last())
    }
}

/// How often a sampler for tool calls was tried by then.
pub open spec fn attempts(swap_possible: bool, texts: Seq<bool>) -> nat
    decreases texts.len(),
{
    if texts.len() == 0 {
        0
    } else {
        let before = attempted_after(swap_possible, texts.drop_last());
        attempts(swap_possible, texts.drop_last()) + if swap_due(
            swap_possible,
            before,
            texts.last(),
        ) {
            1nat
        } else {
            0nat
        }
    }
}

/// However many texts of a response are looked at, a sampler for tool calls is
/// tried at most once: it is tried at the first that commits to a call, if it is
/// possible at all, and that is never taken back.
pub proof fn a_swap_is_tried_at_most_once(swap_possible: bool, texts: Seq<bool>)
    ensures
        attempts(swap_possible, texts) == (if attempted_after(swap_possible, texts) {
            1nat
        } else {
            0nat
        }),
        attempted_after(swap_possible, texts) == (swap_possible && texts.contains(true)),
        forall|k: int|
            0 <= k <= texts.len() && attempted_after(swap_possible, #[trigger] texts.take(k))
                ==> attempted_after(swap_possible, texts),
    decreases texts.len(),
{
    if texts.len() > 0 {
        let before = texts.drop_last();
        a_swap_is_tried_at_most_once(swap_possible, before);
        if texts.contains(true) && !before.contains(true) {
            let i = choose|i: int| 0 <= i < texts.len() && texts[i];
            assert(i < before.len() ==> before[i]);
            assert(texts.last());
        }
        if before.contains(true) {
            let i = choose|i: int| 0 <= i < before.len() && before[i];
            assert(texts[i]);
        }
        if texts.last() {
            assert(texts[texts.len() - 1]);
        }
        assert forall|k: int|
            0 <= k <= texts.len() && attempted_after(swap_possible, #[trigger] texts.take(k))
            implies attempted_after(swap_possible, texts) by {
            if k < texts.len() {
                assert(before.take(k) =~= texts.take(k));
            } else {
                assert(texts.take(k) =~= texts);
            }
        }
    } else {
        assert(texts.take(0) =~= texts);
    }
}

/// A sampler that is rebuilt in the middle of a response, moved on by the
/// number of tokens so far, draws from another seed than at the start: the
/// start of the response is not replayed.
pub proof fn an_offset_changes_the_seed(seed: u32, offset: u32)
    requires
        offset > 0,
    ensures
        shifted(seed, 0) == seed,
        shifted(seed, offset) != shifted(seed, 0),
{
}

/// A fixed seed fixes the sampler chain: for the same request, at the same place
/// in a response, it is the same again.
pub proof fn a_fixed_seed_fixes_the_chain(
    a: Seq<SamplerStage>,
    b: Seq<SamplerStage>,
    n_vocab: i32,
    defaults: SamplingDefaults,
    request: LLMRequest,
    default_seed: Option<u32>,
    offset: u32,
    grammar: bool,
)
    requires
        request_seed(request.seed) is Some || default_seed is Some,
        is_chain(a, n_vocab, defaults, request, default_seed, offset, grammar),
        is_chain(b, n_vocab, defaults, request, default_seed, offset, grammar),
    ensures
        a == b,
{
}

} // verus!
