//! What holds of everything that is read from a model's text.

use crate::qwen::calls;
use crate::qwen::markup;
use crate::qwen::markup::{CALL_CLOSE, CALL_OPEN, FN_NAME};
use crate::qwen::provider;
use crate::qwen::provider::QwenProvider;
use crate::text;
use vstd::prelude::*;

verus! {

/// Text without its Hermes tool calls holds no opening tag, so that neither a
/// call nor a fragment of one is shown to the user.
pub proof fn no_hermes_tag_is_shown(s: Seq<char>)
    ensures
        text::find_from(markup::without_hermes(s), 0, CALL_OPEN@) is None,
    decreases s.len(),
{
    text::find_from_is_first(s, 0, CALL_OPEN@);
    if let Some(a) = text::find_from(s, 0, CALL_OPEN@) {
        text::find_from_is_first(s, a, CALL_CLOSE@);
        match text::find_from(s, a, CALL_CLOSE@) {
            Some(e) => {
                markup::lemma_hermes_tags(s, a, e);
                no_hermes_tag_is_shown(s.take(a) + s.skip(e + 12));
            },
            None => {
                let shown = s.take(a);
                text::find_from_is_first(shown, 0, CALL_OPEN@);
                if let Some(j) = text::find_from(shown, 0, CALL_OPEN@) {
                    markup_open_len();
                    assert(shown.subrange(j, j + CALL_OPEN@.len()) =~= s.subrange(
                        j,
                        j + CALL_OPEN@.len(),
                    ));
                    assert(text::occurs_at(s, CALL_OPEN@, j));
                    assert(j < a);
                }
            },
        }
    }
}

proof fn markup_open_len()
    ensures
        CALL_OPEN@.len() == 11,
{
    reveal_strlit("<tool_call>");
}

/// Text without its native calls holds no function marker.
pub proof fn no_function_marker_is_shown(s: Seq<char>)
    ensures
        text::find_from(markup::without_native_calls(s), 0, FN_NAME@) is None,
    decreases s.len(),
{
    if let Some(a) = text::find_from(s, 0, FN_NAME@) {
        text::find_from_is_first(s, 0, FN_NAME@);
        markup::lemma_native_end(s, a);
        no_function_marker_is_shown(s.take(a) + s.skip(markup::native_end(s, a)));
    }
}

/// A plain JSON object counts as a call only if it names a tool that was
/// offered.
pub proof fn only_offered_tools_are_called(s: Seq<char>, known: Seq<Seq<char>>)
    ensures
        forall|i: int|
            0 <= i < calls::fallback_calls(s, known).len() ==> known.contains(
                (#[trigger] calls::fallback_calls(s, known)[i]).name,
            ),
{
    lemma_offered(s, calls::objects_from(s, 0), known);
}

proof fn lemma_offered(s: Seq<char>, found: Seq<calls::FoundView>, known: Seq<Seq<char>>)
    ensures
        forall|i: int|
            0 <= i < calls::offered_calls(s, found, known).0.len() ==> known.contains(
                (#[trigger] calls::offered_calls(s, found, known).0[i]).name,
            ),
    decreases found.len(),
{
    if found.len() > 0 {
        lemma_offered(s, found.drop_last(), known);
        let before = calls::offered_calls(s, found.drop_last(), known).0;
        let now = calls::offered_calls(s, found, known).0;
        assert forall|i: int| 0 <= i < now.len() implies known.contains(
            (#[trigger] now[i]).name,
        ) by {
            if i < before.len() {
                assert(now[i] == before[i]);
            }
        }
    }
}

/// Where no tools were offered, text is never taken for a call and stays as it
/// is.
pub proof fn without_tools_text_is_text(s: Seq<char>)
    ensures
        calls::fallback_calls(s, Seq::empty()).len() == 0,
        calls::fallback_text(s, Seq::empty()) == s,
{
    only_offered_tools_are_called(s, Seq::empty());
    let c = calls::fallback_calls(s, Seq::empty());
    if c.len() > 0 {
        assert(Seq::<Seq<char>>::empty().contains(c[0].name));
    }
    calls::lemma_nothing_found(s, Seq::empty());
}

/// Qwen3 models get no repetition penalty by default, and a model of no known
/// family gets nothing but `top_p`.
pub proof fn penalties_are_never_guessed(lower: Seq<char>, thinking: bool)
    ensures
        text::find_from(lower, 0, "qwen3"@) is Some ==> provider::family_sampling(
            lower,
            thinking,
        ).2 is None,
        text::find_from(lower, 0, "qwen3"@) is None && text::find_from(lower, 0, "qwen2"@) is None
            && text::find_from(lower, 0, "coder"@) is None ==> provider::family_sampling(
            lower,
            thinking,
        ).1 is None && provider::family_sampling(lower, thinking).2 is None,
        provider::family_sampling(lower, thinking).0 is Some,
{
}

/// A deployment is local exactly if its key is the one that stands for none. The
/// key is sent without white space around it.
pub proof fn the_key_tells_a_local_deployment(p: QwenProvider)
    ensures
        p.local_deployment() <==> p.api_key@ == "not-needed"@,
        p.bearer() == "Bearer "@ + text::trimmed(p.api_key@),
{
}

/// A local deployment takes any model for nothing, without a key, and reads 8192
/// tokens where it is not known better. Elsewhere the key is sent, a model has to
/// be listed or be a Qwen model, and reads 32768 tokens where it is not known
/// better.
pub proof fn deployments_are_told_apart(p: QwenProvider, model: Seq<char>, rest: Seq<char>)
    ensures
        p.api_key@ == "not-needed"@ ==> {
            &&& p.takes_model(model)
            &&& p.price_of(model) is None
            &&& p.header_pairs() == seq![("content-type"@, "application/json"@)]
            &&& !provider::listed_models().contains(model) ==> p.window_of(model) == 8_192
        },
        p.api_key@ != "not-needed"@ ==> {
            &&& p.price_of(model) == provider::listed_price(model)
            &&& p.header_pairs() == seq![
                ("authorization"@, "Bearer "@ + text::trimmed(p.api_key@)),
                ("content-type"@, "application/json"@),
            ]
            &&& !provider::listed_models().contains(model) ==> p.window_of(model) == 32_768
            &&& model.len() < 4 || model.take(4) != "qwen"@ ==> (p.takes_model(model)
                <==> provider::listed_models().contains(model))
        },
        p.takes_model("qwen"@ + rest),
        provider::listed_models().contains(model) ==> p.takes_model(model) && provider::listed_window(
            model,
        ) == Some(p.window_of(model)),
{
    listed_models_have_their_window(model);
    reveal_strlit("qwen");
    let named = "qwen"@ + rest;
    assert(named.subrange(0, 4) =~= "qwen"@);
    if model.len() >= 4 {
        assert(model.subrange(0, 4) =~= model.take(4));
    }
}

/// Exactly the models that are listed have a window that is known: the two that
/// read most have 262144 tokens, one has 32768 and the others have 131072.
pub proof fn listed_models_have_their_window(model: Seq<char>)
    ensures
        provider::listed_models().contains(model) <==> provider::listed_window(model) is Some,
        provider::listed_window(model) == Some(262_144u32) <==> model == "qwen3-coder-next"@
            || model == "qwen3.6-27b"@,
        provider::listed_window(model) == Some(32_768u32) <==> model == "qwen-max"@,
        provider::listed_window(model) matches Some(n) ==> n == 262_144 || n == 131_072 || n
            == 32_768,
{
    let all = provider::listed_models();
    assert(all[0] == "qwen3-coder-next"@);
    assert(all[1] == "qwen3.6-27b"@);
    assert(all[13] == "qwen-max"@);
    reveal_strlit("qwen3-coder-next");
    reveal_strlit("qwen3.6-27b");
    reveal_strlit("qwen-max");
    assert("qwen3-coder-next"@.len() == 16);
    assert("qwen3.6-27b"@.len() == 11);
    assert("qwen-max"@.len() == 8);
}

/// A price is known of three models, and each has its own.
pub proof fn prices_are_known_of_three_models(model: Seq<char>)
    ensures
        provider::listed_price(model) == Some((24u32, 96u32)) <==> model == "qwen-max"@,
        provider::listed_price(model) == Some((8u32, 20u32)) <==> model == "qwen-plus"@,
        provider::listed_price(model) == Some((3u32, 6u32)) <==> model == "qwen-turbo"@,
        provider::listed_price(model) is Some ==> model == "qwen-max"@ || model == "qwen-plus"@
            || model == "qwen-turbo"@,
{
    reveal_strlit("qwen-max");
    reveal_strlit("qwen-plus");
    reveal_strlit("qwen-turbo");
    assert("qwen-max"@.len() == 8);
    assert("qwen-plus"@.len() == 9);
    assert("qwen-turbo"@.len() == 10);
}

} // verus!
