//! What is taken out of a model's text, and what is left of it.

use crate::json;
use crate::qwen::calls;
use crate::qwen::calls::{CallView, FoundView};
use crate::qwen::markup;
use crate::qwen::markup::{CALL_CLOSE, CALL_OPEN, FN_ARGS, FN_EXIT, FN_NAME, FN_RESULT};
use crate::qwen::response;
use crate::text;
use serde_json::Value;
use vstd::prelude::*;

verus! {

/// Whether the first character of a tag does not occur again in it, so that no
/// two of them overlap.
pub open spec fn stands_alone(tag: Seq<char>) -> bool {
    tag.len() > 0 && forall|k: int| 1 <= k < tag.len() ==> #[trigger] tag[k] != tag[0]
}

proof fn lemma_tags_stand_alone()
    ensures
        stands_alone("<think>"@),
        stands_alone("</think>"@),
        stands_alone(CALL_OPEN@),
        stands_alone(CALL_CLOSE@),
        "<think>"@.len() == 7,
        "</think>"@.len() == 8,
        CALL_OPEN@.len() == 11,
        CALL_CLOSE@.len() == 12,
{
    reveal_strlit("<think>");
    reveal_strlit("</think>");
    reveal_strlit("<tool_call>");
    reveal_strlit("</tool_call>");
}

proof fn lemma_first_tag(x: Seq<char>, tag: Seq<char>, y: Seq<char>)
    requires
        stands_alone(tag),
        text::find_from(x, 0, tag) is None,
    ensures
        text::find_from(x + tag + y, 0, tag) == Some(x.len() as int),
{
    let h = x + tag + y;
    let n = x.len() as int;
    text::find_from_is_first(h, 0, tag);
    text::find_from_is_first(x, 0, tag);
    assert(h.subrange(n, n + tag.len()) =~= tag);
    assert(text::occurs_at(h, tag, n));
    let j = text::find_from(h, 0, tag).unwrap();
    if j < n {
        let found = h.subrange(j, j + tag.len());
        if j + tag.len() <= n {
            assert(x.subrange(j, j + tag.len()) =~= found);
            assert(text::occurs_at(x, tag, j));
        } else {
            assert(found[n - j] == h[n]);
            assert(h[n] == tag[0]);
            assert(tag[n - j] != tag[0]);
        }
    }
}

/// Reasoning is what stands in the first `<think>` block, and the rest is what
/// stands before and behind it, each without white space around it. Text without
/// such a block has no reasoning.
pub proof fn reasoning_is_taken_out_whole(x: Seq<char>, inner: Seq<char>, y: Seq<char>)
    requires
        text::find_from(x, 0, "<think>"@) is None,
        text::find_from(inner, 0, "</think>"@) is None,
    ensures
        markup::thinking_parts(x + "<think>"@ + inner + "</think>"@ + y) == Some(
            (text::trimmed(inner), text::trimmed(x) + text::trimmed(y)),
        ),
        markup::thinking_parts(x) is None,
        markup::thinking_parts(x + "<think>"@ + inner) is None,
{
    lemma_tags_stand_alone();
    let n = x.len() as int;
    let tail = inner + "</think>"@ + y;
    let h = x + "<think>"@ + tail;
    assert(x + "<think>"@ + inner + "</think>"@ + y =~= h);
    lemma_first_tag(x, "<think>"@, tail);
    lemma_first_tag(inner, "</think>"@, y);
    assert(h.skip(n + 7) =~= tail);
    text::lemma_find_in_rest(h, n + 7, 0, "</think>"@);
    let e = n + 7 + inner.len();
    assert(h.subrange(n + 7, e) =~= inner);
    assert(h.take(n) =~= x);
    assert(h.skip(e + 8) =~= y);
    let g = x + "<think>"@ + inner;
    lemma_first_tag(x, "<think>"@, inner);
    assert(g.skip(n + 7) =~= inner);
    text::lemma_find_in_rest(g, n + 7, 0, "</think>"@);
}

proof fn lemma_no_close_in_open(inner: Seq<char>)
    requires
        text::find_from(inner, 0, CALL_CLOSE@) is None,
    ensures
        text::find_from(CALL_OPEN@ + inner, 0, CALL_CLOSE@) is None,
{
    reveal_strlit("<tool_call>");
    reveal_strlit("</tool_call>");
    let h = CALL_OPEN@ + inner;
    text::find_from_is_first(h, 0, CALL_CLOSE@);
    text::find_from_is_first(inner, 0, CALL_CLOSE@);
    if let Some(j) = text::find_from(h, 0, CALL_CLOSE@) {
        let found = h.subrange(j, j + 12);
        assert(found[0] == h[j]);
        assert(found[1] == h[j + 1]);
        if j >= 11 {
            assert(inner.subrange(j - 11, j + 1) =~= found);
            assert(text::occurs_at(inner, CALL_CLOSE@, j - 11));
        }
    }
}

/// A Hermes call is taken out of the text with its tags, and nothing else is;
/// what it holds is read, and reading goes on behind it. An opening tag that is
/// never closed takes the rest of the text with it.
pub proof fn hermes_calls_are_taken_out_whole(x: Seq<char>, inner: Seq<char>, y: Seq<char>)
    requires
        text::find_from(x, 0, "<tool_call>"@) is None,
        text::find_from(inner, 0, "</tool_call>"@) is None,
    ensures
        markup::without_hermes(x + "<tool_call>"@ + inner + "</tool_call>"@ + y)
            == markup::without_hermes(x + y),
        markup::hermes_bodies_from(x + "<tool_call>"@ + inner + "</tool_call>"@ + y, 0) == seq![
            text::trimmed(inner),
        ] + markup::hermes_bodies_from(y, 0),
        markup::without_hermes(x) == x,
        markup::hermes_bodies_from(x, 0).len() == 0,
        markup::without_hermes(x + "<tool_call>"@ + inner) == x,
        markup::hermes_bodies_from(x + "<tool_call>"@ + inner, 0).len() == 0,
{
    lemma_tags_stand_alone();
    let n = x.len() as int;
    let tail = inner + CALL_CLOSE@ + y;
    let h = x + CALL_OPEN@ + tail;
    assert(x + CALL_OPEN@ + inner + CALL_CLOSE@ + y =~= h);
    lemma_first_tag(x, CALL_OPEN@, tail);
    lemma_no_close_in_open(inner);
    lemma_first_tag(CALL_OPEN@ + inner, CALL_CLOSE@, y);
    assert(h.skip(n) =~= CALL_OPEN@ + inner + CALL_CLOSE@ + y);
    text::lemma_find_in_rest(h, n, 0, CALL_CLOSE@);
    let e = n + 11 + inner.len();
    assert(text::find_from(h, n, CALL_CLOSE@) == Some(e));
    assert(h.take(n) + h.skip(e + 12) =~= x + y);
    assert(h.subrange(n + 11, e) =~= inner);
    assert(h.skip(e + 12) =~= y);
    lemma_bodies_in_rest(h, e + 12, 0);
    let g = x + CALL_OPEN@ + inner;
    lemma_first_tag(x, CALL_OPEN@, inner);
    assert(g.skip(n) =~= CALL_OPEN@ + inner);
    text::lemma_find_in_rest(g, n, 0, CALL_CLOSE@);
    assert(g.take(n) =~= x);
}

proof fn lemma_bodies_in_rest(h: Seq<char>, p: int, pos: int)
    requires
        0 <= p <= h.len(),
        0 <= pos,
    ensures
        markup::hermes_bodies_from(h, p + pos) == markup::hermes_bodies_from(h.skip(p), pos),
    decreases h.len() - p - pos,
{
    let t = h.skip(p);
    text::lemma_find_in_rest(h, p, pos, CALL_OPEN@);
    text::find_from_is_first(t, pos, CALL_OPEN@);
    if let Some(a) = text::find_from(t, pos, CALL_OPEN@) {
        text::lemma_find_in_rest(h, p, a, CALL_CLOSE@);
        text::find_from_is_first(t, a, CALL_CLOSE@);
        if let Some(e) = text::find_from(t, a, CALL_CLOSE@) {
            markup::lemma_hermes_tags(t, a, e);
            lemma_bodies_in_rest(h, p, e + 12);
            assert(h.subrange(p + a + 11, p + e) =~= t.subrange(a + 11, e));
        }
    }
}

/// Bodies are read one by one: each that is JSON with a name and arguments is a
/// call, in its order, and each other is none.
pub proof fn bodies_are_read_one_by_one(x: Seq<Seq<char>>, y: Seq<Seq<char>>, body: Seq<char>)
    ensures
        calls::calls_in_bodies(x + y) == calls::calls_in_bodies(x) + calls::calls_in_bodies(y),
        json::json_value(body) is None ==> calls::calls_in_bodies(seq![body]).len() == 0,
        json::json_value(body) matches Some(v) ==> calls::calls_in_bodies(seq![body]) == (
        match calls::named_call(v) {
            Some(c) => seq![c],
            None => Seq::empty(),
        }),
    decreases y.len(),
{
    let none = Seq::<Seq<char>>::empty();
    assert(seq![body].drop_last() =~= none);
    assert(calls::calls_in_bodies(none) =~= Seq::<CallView>::empty());
    if let Some(v) = json::json_value(body) {
        if let Some(c) = calls::named_call(v) {
            assert(Seq::<CallView>::empty().push(c) =~= seq![c]);
        }
    }
    if y.len() == 0 {
        assert(x + y =~= x);
        assert(calls::calls_in_bodies(x) + calls::calls_in_bodies(y) =~= calls::calls_in_bodies(x));
    } else {
        bodies_are_read_one_by_one(x, y.drop_last(), body);
        assert((x + y).drop_last() =~= x + y.drop_last());
        assert((x + y).last() == y.last());
        assert(calls::calls_in_bodies(x + y) =~= calls::calls_in_bodies(x)
            + calls::calls_in_bodies(y));
    }
}

/// An object is a call exactly if its member `name` is a string and it has a
/// member `arguments`; its input is that member as it is.
pub proof fn a_call_has_a_name_and_arguments(v: Value, n: Value, name: Seq<char>, input: Value)
    ensures
        json::json_member(v, "name"@) == Some(n) && json::json_string(n) == Some(name)
            && json::json_member(v, "arguments"@) == Some(input) ==> calls::named_call(v) == Some(
            CallView { name, input },
        ),
        json::json_member(v, "name"@) is None ==> calls::named_call(v) is None,
        json::json_member(v, "name"@) == Some(n) && json::json_string(n) is None
            ==> calls::named_call(v) is None,
        json::json_member(v, "arguments"@) is None ==> calls::named_call(v) is None,
{
}

/// Native calls are read one by one: each whose arguments are JSON is a call
/// under its name, in its order.
pub proof fn pairs_are_read_one_by_one(
    x: Seq<(Seq<char>, Seq<char>)>,
    y: Seq<(Seq<char>, Seq<char>)>,
    name: Seq<char>,
    arguments: Seq<char>,
)
    ensures
        calls::calls_in_pairs(x + y) == calls::calls_in_pairs(x) + calls::calls_in_pairs(y),
        calls::calls_in_pairs(seq![(name, arguments)]) == (match json::json_value(arguments) {
            Some(input) => seq![CallView { name, input }],
            None => Seq::empty(),
        }),
    decreases y.len(),
{
    let none = Seq::<(Seq<char>, Seq<char>)>::empty();
    assert(seq![(name, arguments)].drop_last() =~= none);
    assert(calls::calls_in_pairs(none) =~= Seq::<CallView>::empty());
    if let Some(input) = json::json_value(arguments) {
        assert(Seq::<CallView>::empty().push(CallView { name, input }) =~= seq![
            CallView { name, input },
        ]);
    }
    if y.len() == 0 {
        assert(x + y =~= x);
        assert(calls::calls_in_pairs(x) + calls::calls_in_pairs(y) =~= calls::calls_in_pairs(x));
    } else {
        pairs_are_read_one_by_one(x, y.drop_last(), name, arguments);
        assert((x + y).drop_last() =~= x + y.drop_last());
        assert((x + y).last() == y.last());
        assert(calls::calls_in_pairs(x + y) =~= calls::calls_in_pairs(x) + calls::calls_in_pairs(
            y,
        ));
    }
}

/// The pieces of native text are read one by one, each for itself.
pub proof fn pieces_are_read_one_by_one(x: Seq<Seq<char>>, y: Seq<Seq<char>>, piece: Seq<char>)
    ensures
        markup::native_texts_of(x + y) == markup::native_texts_of(x) + markup::native_texts_of(y),
        markup::native_texts_of(seq![piece]) == (match markup::native_call_text(piece) {
            Some(c) => seq![c],
            None => Seq::empty(),
        }),
    decreases y.len(),
{
    let none = Seq::<Seq<char>>::empty();
    assert(seq![piece].drop_last() =~= none);
    assert(markup::native_texts_of(none) =~= Seq::<(Seq<char>, Seq<char>)>::empty());
    if let Some(c) = markup::native_call_text(piece) {
        assert(Seq::<(Seq<char>, Seq<char>)>::empty().push(c) =~= seq![c]);
    }
    if y.len() == 0 {
        assert(x + y =~= x);
        assert(markup::native_texts_of(x) + markup::native_texts_of(y) =~= markup::native_texts_of(
            x,
        ));
    } else {
        pieces_are_read_one_by_one(x, y.drop_last(), piece);
        assert((x + y).drop_last() =~= x + y.drop_last());
        assert((x + y).last() == y.last());
        assert(markup::native_texts_of(x + y) =~= markup::native_texts_of(x)
            + markup::native_texts_of(y));
    }
}

proof fn lemma_flower(s: Seq<char>, m: Seq<char>)
    requires
        !s.contains('✿'),
        m.len() > 0,
        m[0] == '✿',
    ensures
        text::find_from(s, 0, m) is None,
{
    text::find_from_is_first(s, 0, m);
    if let Some(j) = text::find_from(s, 0, m) {
        assert(s.subrange(j, j + m.len())[0] == s[j]);
        assert(s.contains(s[j]));
    }
}

/// A native call is taken out of the text up to the result or the answer behind it,
/// and with all that follows where nothing ends it. The text around it stays as it is.
pub proof fn native_calls_are_taken_out_whole(x: Seq<char>, inner: Seq<char>, y: Seq<char>)
    requires
        !x.contains('✿'),
        !y.contains('✿'),
    ensures
        text::find_from("✿FUNCTION✿"@ + inner + "✿RESULT✿"@, 0, "✿RESULT✿"@) == Some(
            10 + inner.len() as int,
        ) ==> markup::without_native_calls(x + "✿FUNCTION✿"@ + inner + "✿RESULT✿"@ + y) == x
            + "✿RESULT✿"@ + y,
        text::find_from("✿FUNCTION✿"@ + inner, 0, "✿RESULT✿"@) is None && text::find_from(
            "✿FUNCTION✿"@ + inner,
            0,
            "✿RETURN✿"@,
        ) is None ==> markup::without_native_calls(x + "✿FUNCTION✿"@ + inner) == x,
        !inner.contains('✿') && inner != "RESULT"@ && inner != "RETURN"@
            ==> markup::without_native_calls(
            x + "✿FUNCTION✿"@ + inner + "✿RETURN✿"@ + y,
        ) == x + "✿RETURN✿"@ + y,
        markup::without_native_calls(x) == x,
{
    if !inner.contains('✿') && inner != "RESULT"@ && inner != "RETURN"@ {
        lemma_taken_out_to_exit(x, inner, y);
    }
    reveal_strlit("✿FUNCTION✿");
    reveal_strlit("✿RESULT✿");
    reveal_strlit("✿RETURN✿");
    lemma_flower(x, FN_NAME@);
    let n = x.len() as int;
    let g = x + FN_NAME@ + inner;
    lemma_first_flower(x, inner);
    assert(g.skip(n) =~= FN_NAME@ + inner);
    text::lemma_find_in_rest(g, n, 0, FN_RESULT@);
    text::lemma_find_in_rest(g, n, 0, FN_EXIT@);
    assert(g.take(n) + g.skip(g.len() as int) =~= x);
    assert(markup::without_native_calls(x) == x);
    if text::find_from(FN_NAME@ + inner + FN_RESULT@, 0, FN_RESULT@) == Some(10 + inner.len() as int) {
        let tail = inner + FN_RESULT@ + y;
        let h = x + FN_NAME@ + tail;
        assert(x + FN_NAME@ + inner + FN_RESULT@ + y =~= h);
        lemma_first_flower(x, tail);
        let t = FN_NAME@ + inner + FN_RESULT@;
        assert(h.skip(n) =~= t + y);
        lemma_found_in_longer(t, y, FN_RESULT@, 10 + inner.len() as int);
        text::lemma_find_in_rest(h, n, 0, FN_RESULT@);
        let e = n + 10 + inner.len();
        assert(markup::native_end(h, n) == e);
        let left = x + FN_RESULT@ + y;
        assert(h.take(n) + h.skip(e) =~= left);
        lemma_no_function_left(x, y);
        assert(markup::without_native_calls(left) == left);
    }
}

proof fn lemma_taken_out_to_exit(x: Seq<char>, inner: Seq<char>, y: Seq<char>)
    requires
        !x.contains('✿'),
        !inner.contains('✿'),
        inner != "RESULT"@,
        inner != "RETURN"@,
        !y.contains('✿'),
    ensures
        markup::without_native_calls(x + FN_NAME@ + inner + FN_EXIT@ + y) == x + FN_EXIT@ + y,
{
    reveal_strlit("✿FUNCTION✿");
    reveal_strlit("✿RESULT✿");
    reveal_strlit("✿RETURN✿");
    reveal_strlit("RESULT");
    reveal_strlit("RETURN");
    let n = x.len() as int;
    let tail = inner + FN_EXIT@ + y;
    let h = x + FN_NAME@ + tail;
    assert(x + FN_NAME@ + inner + FN_EXIT@ + y =~= h);
    lemma_first_flower(x, tail);
    let e = n + 10 + inner.len();
    assert forall|i: int| n <= i < h.len() && h[i] == '✿' implies i == n || i == n + 9 || i == e
        || i == e + 7 by {
        if n + 10 <= i < e {
            assert(inner.contains(inner[i - n - 10]));
        } else if i >= e + 8 {
            assert(y.contains(y[i - e - 8]));
        }
    }
    text::find_from_is_first(h, n, FN_RESULT@);
    if let Some(j) = text::find_from(h, n, FN_RESULT@) {
        let f = h.subrange(j, j + 8);
        assert(f[0] == h[j]);
        assert(f[1] == h[j + 1]);
        assert(f[3] == h[j + 3]);
        assert(f[7] == h[j + 7]);
        if j == n + 9 {
            assert(inner =~= f.subrange(1, 7));
            assert(inner =~= "RESULT"@);
        }
    }
    text::find_from_is_first(h, n, FN_EXIT@);
    assert(h.subrange(e, e + 8) =~= FN_EXIT@);
    assert(text::occurs_at(h, FN_EXIT@, e));
    let j = text::find_from(h, n, FN_EXIT@).unwrap();
    let f = h.subrange(j, j + 8);
    assert(f[0] == h[j]);
    assert(f[1] == h[j + 1]);
    assert(f[7] == h[j + 7]);
    if j == n + 9 {
        assert(inner =~= f.subrange(1, 7));
        assert(inner =~= "RETURN"@);
    }
    assert(j == e);
    let left = x + FN_EXIT@ + y;
    assert(h.take(n) + h.skip(e) =~= left);
    lemma_only_marker(x, FN_EXIT@, y);
    assert(markup::without_native_calls(left) == left);
}

proof fn lemma_first_flower(x: Seq<char>, tail: Seq<char>)
    requires
        !x.contains('✿'),
    ensures
        text::find_from(x + FN_NAME@ + tail, 0, FN_NAME@) == Some(x.len() as int),
{
    reveal_strlit("✿FUNCTION✿");
    let h = x + FN_NAME@ + tail;
    let n = x.len() as int;
    text::find_from_is_first(h, 0, FN_NAME@);
    assert(h.subrange(n, n + 10) =~= FN_NAME@);
    assert(text::occurs_at(h, FN_NAME@, n));
    let j = text::find_from(h, 0, FN_NAME@).unwrap();
    if j < n {
        assert(h.subrange(j, j + 10)[0] == h[j]);
        assert(x.contains(x[j]));
    }
}

proof fn lemma_found_in_longer(t: Seq<char>, y: Seq<char>, m: Seq<char>, i: int)
    requires
        text::find_from(t, 0, m) == Some(i),
        i + m.len() == t.len(),
    ensures
        text::find_from(t + y, 0, m) == Some(i),
{
    let h = t + y;
    text::find_from_is_first(t, 0, m);
    text::find_from_is_first(h, 0, m);
    assert(h.subrange(i, i + m.len()) =~= t.subrange(i, i + m.len()));
    assert(text::occurs_at(h, m, i));
    let j = text::find_from(h, 0, m).unwrap();
    if j < i {
        assert(h.subrange(j, j + m.len()) =~= t.subrange(j, j + m.len()));
        assert(text::occurs_at(t, m, j));
    }
}

proof fn lemma_no_function_left(x: Seq<char>, y: Seq<char>)
    requires
        !x.contains('✿'),
        !y.contains('✿'),
    ensures
        text::find_from(x + FN_RESULT@ + y, 0, FN_NAME@) is None,
{
    reveal_strlit("✿FUNCTION✿");
    reveal_strlit("✿RESULT✿");
    let h = x + FN_RESULT@ + y;
    let n = x.len() as int;
    text::find_from_is_first(h, 0, FN_NAME@);
    if let Some(j) = text::find_from(h, 0, FN_NAME@) {
        let m = h.subrange(j, j + 10);
        assert(m[0] == h[j]);
        assert(m[1] == h[j + 1]);
        assert(m[9] == h[j + 9]);
        if j < n {
            assert(x.contains(x[j]));
        } else if j >= n + 8 {
            assert(y.contains(y[j - n - 8]));
        } else if j == n + 7 {
            assert(y.contains(y[j + 9 - n - 8]));
        }
    }
}

/// Every occurrence of a marker is taken out, from left to right, and nothing
/// else.
pub proof fn markers_are_taken_out_one_by_one(x: Seq<char>, y: Seq<char>, m: Seq<char>)
    requires
        m.len() > 0,
    ensures
        text::find_from(x, 0, m) is None ==> markup::without_from(x, 0, m) == x,
        text::find_from(x + m, 0, m) == Some(x.len() as int) ==> markup::without_from(
            x + m + y,
            0,
            m,
        ) == x + markup::without_from(y, 0, m),
{
    assert(x.skip(0) =~= x);
    if text::find_from(x + m, 0, m) == Some(x.len() as int) {
        lemma_found_in_longer(x + m, y, m, x.len() as int);
        let h = x + m + y;
        let n = x.len() as int;
        assert(h.subrange(0, n) =~= x);
        assert(h.skip(n + m.len()) =~= y);
        lemma_without_in_rest(h, n + m.len(), 0, m);
    }
}

proof fn lemma_without_in_rest(h: Seq<char>, p: int, pos: int, m: Seq<char>)
    requires
        0 <= p <= h.len(),
        0 <= pos <= h.len() - p,
        m.len() > 0,
    ensures
        markup::without_from(h, p + pos, m) == markup::without_from(h.skip(p), pos, m),
    decreases h.len() - p - pos,
{
    let t = h.skip(p);
    text::lemma_find_in_rest(h, p, pos, m);
    text::find_from_is_first(t, pos, m);
    match text::find_from(t, pos, m) {
        Some(i) => {
            lemma_without_in_rest(h, p, i + m.len(), m);
            assert(h.subrange(p + pos, p + i) =~= t.subrange(pos, i));
        },
        None => {
            assert(h.skip(p + pos) =~= t.skip(pos));
        },
    }
}

proof fn lemma_no_partial(s: Seq<char>, m: Seq<char>, i: int)
    requires
        !s.contains('✿'),
        1 <= i,
        m.len() > 0,
        m[0] == '✿',
    ensures
        markup::without_partial(s, m, i) == s,
    decreases m.len() - i,
{
    if i < m.len() {
        let part = m.take(i);
        if text::finishes_with(s, part) {
            let k = s.len() - i;
            assert(s.subrange(k, s.len() as int)[0] == s[k]);
            assert(part[0] == '✿');
            assert(s.contains(s[k]));
        }
        lemma_no_partial(s, m, i + 1);
    }
}

/// Text without a native marker, or a part of one, is shown as it is.
pub proof fn text_without_markers_is_shown(s: Seq<char>)
    requires
        !s.contains('✿'),
    ensures
        markup::without_incomplete_markers(s) == s,
{
    reveal_strlit("✿FUNCTION✿");
    reveal_strlit("✿ARGS✿");
    reveal_strlit("✿RESULT✿");
    reveal_strlit("✿RETURN✿");
    lemma_no_partial(s, FN_NAME@, 1);
    lemma_no_partial(s, FN_ARGS@, 1);
    lemma_no_partial(s, FN_RESULT@, 1);
    lemma_no_partial(s, FN_EXIT@, 1);
}

/// A whole native marker at the end of a text is left for the one who reads it.
pub proof fn a_whole_marker_is_left(t: Seq<char>, m: Seq<char>)
    requires
        m == "✿FUNCTION✿"@ || m == "✿ARGS✿"@ || m == "✿RESULT✿"@ || m == "✿RETURN✿"@,
    ensures
        markup::without_incomplete_markers(t + m) == t + m,
{
    text::text_begins_and_ends_with_its_parts(t, m, m);
}

proof fn lemma_one_span(from: int, to: int, i: int)
    ensures
        calls::covered(seq![(from, to)], i) == (from <= i < to),
{
    let spans = seq![(from, to)];
    if from <= i < to {
        assert(spans[0].0 <= i < spans[0].1);
    }
}

proof fn lemma_partial(t: Seq<char>, p: Seq<char>, m: Seq<char>, k: int)
    requires
        !t.contains('✿'),
        p.len() > 0,
        p[0] == '✿',
        forall|i: int| 1 <= i < p.len() ==> #[trigger] p[i] != '✿',
        m.len() > 0,
        m[0] == '✿',
        1 <= k,
    ensures
        markup::without_partial(t + p, m, k) == (if k <= p.len() < m.len() && m.take(
            p.len() as int,
        ) == p {
            t
        } else {
            t + p
        }),
    decreases m.len() - k,
{
    let s = t + p;
    if k < m.len() {
        let part = m.take(k);
        assert(part[0] == '✿');
        if text::finishes_with(s, part) {
            let at = s.len() - k;
            assert(s.subrange(at, s.len() as int)[0] == s[at]);
            if at < t.len() {
                assert(t.contains(t[at]));
            }
            assert(at == t.len());
            assert(s.subrange(at, s.len() as int) =~= p);
            assert(s.take(at) =~= t);
        } else if k == p.len() {
            assert(s.subrange(t.len() as int, s.len() as int) =~= p);
        }
        lemma_partial(t, p, m, k + 1);
    }
}

/// The beginning of a native marker at the end of a text is not shown, whichever
/// marker it is and however much of it has come.
pub proof fn the_beginning_of_a_marker_is_not_shown(t: Seq<char>, m: Seq<char>, i: int)
    requires
        !t.contains('✿'),
        m == "✿FUNCTION✿"@ || m == "✿ARGS✿"@ || m == "✿RESULT✿"@ || m == "✿RETURN✿"@,
        1 <= i < m.len(),
    ensures
        markup::without_incomplete_markers(t + m.take(i)) == t,
{
    reveal_strlit("✿FUNCTION✿");
    reveal_strlit("✿ARGS✿");
    reveal_strlit("✿RESULT✿");
    reveal_strlit("✿RETURN✿");
    let p = m.take(i);
    let s = t + p;
    let n = t.len() as int;
    lemma_one_flower(t, p);
    lemma_partial(t, p, FN_NAME@, 1);
    lemma_partial(t, p, FN_ARGS@, 1);
    lemma_partial(t, p, FN_RESULT@, 1);
    lemma_partial(t, p, FN_EXIT@, 1);
    lemma_no_partial(t, FN_NAME@, 1);
    lemma_no_partial(t, FN_ARGS@, 1);
    lemma_no_partial(t, FN_RESULT@, 1);
    lemma_no_partial(t, FN_EXIT@, 1);
    assert(p.len() == i);
    assert(m.take(p.len() as int) =~= p);
}

proof fn lemma_one_flower(t: Seq<char>, p: Seq<char>)
    requires
        !t.contains('✿'),
        p.len() > 0,
        forall|i: int| 1 <= i < p.len() ==> #[trigger] p[i] != '✿',
    ensures
        !markup::ends_whole(t + p),
{
    reveal_strlit("✿FUNCTION✿");
    reveal_strlit("✿ARGS✿");
    reveal_strlit("✿RESULT✿");
    reveal_strlit("✿RETURN✿");
    lemma_not_whole(t, p, FN_NAME@);
    lemma_not_whole(t, p, FN_ARGS@);
    lemma_not_whole(t, p, FN_RESULT@);
    lemma_not_whole(t, p, FN_EXIT@);
}

proof fn lemma_not_whole(t: Seq<char>, p: Seq<char>, m: Seq<char>)
    requires
        !t.contains('✿'),
        p.len() > 0,
        forall|i: int| 1 <= i < p.len() ==> #[trigger] p[i] != '✿',
        m.len() > 1,
        m[0] == '✿',
        m.last() == '✿',
    ensures
        !text::finishes_with(t + p, m),
{
    let s = t + p;
    if text::finishes_with(s, m) {
        let at = s.len() - m.len();
        let f = s.subrange(at, s.len() as int);
        assert(f[0] == s[at]);
        assert(f[m.len() - 1] == s[s.len() - 1]);
        assert(s[s.len() - 1] == p.last());
        if at < t.len() {
            assert(t.contains(t[at]));
        }
    }
}

/// `s` without the spans is `s` without what lies in them: text that no span
/// covers stays, and text that one covers goes.
pub proof fn a_span_is_taken_out(s: Seq<char>, from: int, to: int)
    requires
        0 <= from <= to <= s.len(),
    ensures
        calls::without_spans(s, seq![(from, to)]) == s.take(from) + s.skip(to),
    decreases s.len(),
{
    let spans = seq![(from, to)];
    if s.len() > 0 {
        let n = s.len() - 1;
        assert forall|i: int| #[trigger] calls::covered(spans, i) == (from <= i < to) by {
            lemma_one_span(from, to, i);
        }
        assert forall|i: int| #[trigger] calls::covered(seq![(from, n)], i) == (from <= i < n) by {
            lemma_one_span(from, n, i);
        }
        assert forall|i: int| #[trigger] calls::covered(seq![(n, n)], i) == false by {
            lemma_one_span(n, n, i);
        }
        let before = s.drop_last();
        if to <= n {
            a_span_is_taken_out(before, from, to);
            assert(!calls::covered(spans, n));
            assert(before.take(from) =~= s.take(from));
            assert(calls::without_spans(s, spans) =~= s.take(from) + s.skip(to));
        } else if from <= n {
            a_span_is_taken_out(before, from, n);
            assert(spans[0].0 <= n < spans[0].1);
            assert(calls::covered(spans, n));
            lemma_same_spans(before, spans, seq![(from, n)]);
            assert(before.take(from) + before.skip(n) =~= s.take(from) + s.skip(to));
        } else {
            a_span_is_taken_out(before, n, n);
            assert(!calls::covered(spans, n));
            lemma_same_spans(before, spans, seq![(n, n)]);
            assert(before.take(n) + before.skip(n) =~= before);
            assert(calls::without_spans(s, spans) =~= s);
            assert(s.take(from) + s.skip(to) =~= s);
        }
    } else {
        assert(s.take(from) + s.skip(to) =~= s);
    }
}

/// What is left depends only on what the spans cover, not on how many they are or
/// in which order they come.
pub proof fn lemma_same_spans(s: Seq<char>, x: Seq<(int, int)>, y: Seq<(int, int)>)
    requires
        forall|i: int| 0 <= i < s.len() ==> calls::covered(x, i) == #[trigger] calls::covered(y, i),
    ensures
        calls::without_spans(s, x) == calls::without_spans(s, y),
    decreases s.len(),
{
    if s.len() > 0 {
        lemma_same_spans(s.drop_last(), x, y);
        assert(calls::covered(x, s.len() - 1) == calls::covered(y, s.len() - 1));
    }
}

/// Plain objects are looked at one by one: one that is a call to an offered tool
/// counts, with the span it takes, and any other does not.
pub proof fn objects_are_looked_at_one_by_one(
    s: Seq<char>,
    x: Seq<FoundView>,
    y: Seq<FoundView>,
    f: FoundView,
    known: Seq<Seq<char>>,
)
    ensures
        calls::offered_calls(s, x + y, known).0 == calls::offered_calls(s, x, known).0
            + calls::offered_calls(s, y, known).0,
        calls::offered_calls(s, x + y, known).1 == calls::offered_calls(s, x, known).1
            + calls::offered_calls(s, y, known).1,
        calls::offered_call(f.value, known) is None ==> calls::offered_calls(
            s,
            seq![f],
            known,
        ).0.len() == 0 && calls::offered_calls(s, seq![f], known).1.len() == 0,
        calls::offered_call(f.value, known) matches Some(c) ==> calls::offered_calls(
            s,
            seq![f],
            known,
        ) == (seq![c], seq![calls::expanded_span(s, f.start, f.end)]),
    decreases y.len(),
{
    let none = Seq::<FoundView>::empty();
    assert(seq![f].drop_last() =~= none);
    assert(calls::offered_calls(s, none, known).0 =~= Seq::<CallView>::empty());
    assert(calls::offered_calls(s, none, known).1 =~= Seq::<(int, int)>::empty());
    if let Some(c) = calls::offered_call(f.value, known) {
        let span = calls::expanded_span(s, f.start, f.end);
        assert(Seq::<CallView>::empty().push(c) =~= seq![c]);
        assert(Seq::<(int, int)>::empty().push(span) =~= seq![span]);
    }
    if y.len() == 0 {
        assert(x + y =~= x);
        let all = calls::offered_calls(s, x, known);
        assert(all.0 + calls::offered_calls(s, y, known).0 =~= all.0);
        assert(all.1 + calls::offered_calls(s, y, known).1 =~= all.1);
    } else {
        objects_are_looked_at_one_by_one(s, x, y.drop_last(), f, known);
        assert((x + y).drop_last() =~= x + y.drop_last());
        assert((x + y).last() == y.last());
        assert(calls::offered_calls(s, x + y, known).0 =~= calls::offered_calls(s, x, known).0
            + calls::offered_calls(s, y, known).0);
        assert(calls::offered_calls(s, x + y, known).1 =~= calls::offered_calls(s, x, known).1
            + calls::offered_calls(s, y, known).1);
    }
}

/// Every object in a text that is a call to an offered tool is read as that call,
/// and there are no more calls than objects. Where one span is taken out, the text
/// before it and behind it is left.
pub proof fn every_offered_object_is_a_call(
    s: Seq<char>,
    known: Seq<Seq<char>>,
    i: int,
    c: CallView,
    from: int,
    to: int,
)
    requires
        0 <= i < calls::objects_from(s, 0).len(),
        calls::offered_call(calls::objects_from(s, 0)[i].value, known) == Some(c),
    ensures
        calls::fallback_calls(s, known).contains(c),
        calls::fallback_calls(s, known).len() <= calls::objects_from(s, 0).len(),
        calls::offered_calls(s, calls::objects_from(s, 0), known).1 == seq![(from, to)] && 0 <= from
            <= to <= s.len() ==> calls::fallback_text(s, known) == s.take(from) + s.skip(to),
{
    let found = calls::objects_from(s, 0);
    let x = found.take(i);
    let f = found[i];
    let y = found.skip(i + 1);
    objects_are_looked_at_one_by_one(s, x, seq![f], f, known);
    objects_are_looked_at_one_by_one(s, x + seq![f], y, f, known);
    assert(x + seq![f] + y =~= found);
    let k = calls::offered_calls(s, x, known).0.len() as int;
    assert(calls::fallback_calls(s, known)[k] == c);
    lemma_no_more_calls(s, found, known);
    if calls::offered_calls(s, found, known).1 == seq![(from, to)] && 0 <= from <= to <= s.len() {
        a_span_is_taken_out(s, from, to);
    }
}

proof fn lemma_no_more_calls(s: Seq<char>, found: Seq<FoundView>, known: Seq<Seq<char>>)
    ensures
        calls::offered_calls(s, found, known).0.len() <= found.len(),
    decreases found.len(),
{
    if found.len() > 0 {
        lemma_no_more_calls(s, found.drop_last(), known);
    }
}

/// A call to an offered tool keeps its name, and its arguments as they are,
/// unless they are a string: then they are what the string is as JSON, or an
/// empty object.
pub proof fn offered_calls_keep_their_arguments(
    v: Value,
    c: CallView,
    known: Seq<Seq<char>>,
    i: int,
)
    requires
        calls::named_call(v) == Some(c),
        0 <= i < known.len(),
        known[i] == c.name,
    ensures
        calls::offered_call(v, known) matches Some(o) && o.name == c.name && {
            &&& json::json_string(c.input) is None ==> o.input == c.input
            &&& json::json_string(c.input) matches Some(t) ==> o.input == (
            match json::json_value(t) {
                Some(x) => x,
                None => json::empty_json(),
            })
        },
{
    assert(known.contains(c.name));
}

/// How often `c` stands in `s` from `i` on and before `j`.
pub open spec fn times(s: Seq<char>, c: char, i: int, j: int) -> int
    decreases j - i,
{
    if i >= j {
        0
    } else {
        times(s, c, i, j - 1) + if s[j - 1] == c {
            1int
        } else {
            0
        }
    }
}

proof fn lemma_times_step(s: Seq<char>, c: char, i: int, j: int)
    requires
        i < j,
    ensures
        times(s, c, i, j) == times(s, c, i + 1, j) + if s[i] == c {
            1int
        } else {
            0
        },
    decreases j - i,
{
    if i + 1 < j {
        lemma_times_step(s, c, i, j - 1);
    } else {
        assert(times(s, c, i, i) == 0);
        assert(times(s, c, i + 1, j) == 0);
    }
}

proof fn lemma_balance(s: Seq<char>, j: int, depth: int, escape: bool)
    requires
        0 <= j <= s.len(),
        !s.contains('"'),
        depth >= 1,
    ensures
        match calls::object_end(s, j, depth, false, escape) {
            Some(e) => j < e <= s.len() && depth + times(s, '{', j, e) == times(s, '}', j, e)
                && forall|k: int|
                j <= k < e ==> depth + #[trigger] times(s, '{', j, k) > times(s, '}', j, k),
            None => forall|k: int|
                j <= k <= s.len() ==> depth + #[trigger] times(s, '{', j, k) > times(s, '}', j, k),
        },
    decreases s.len() - j,
{
    if j < s.len() {
        assert(s.contains(s[j]));
        let next = if s[j] == '{' {
            depth + 1
        } else if s[j] == '}' {
            depth - 1
        } else {
            depth
        };
        assert forall|k: int| j < k <= s.len() implies depth + #[trigger] times(s, '{', j, k)
            - times(s, '}', j, k) == next + times(s, '{', j + 1, k) - times(s, '}', j + 1, k) by {
            lemma_times_step(s, '{', j, k);
            lemma_times_step(s, '}', j, k);
        }
        if next >= 1 {
            lemma_balance(s, j + 1, next, escape);
        }
    }
}

/// In text without string literals an object ends where as many braces were
/// closed as opened, for the first time; where that never happens it has no end.
pub proof fn an_object_ends_where_its_braces_do(s: Seq<char>, i: int)
    requires
        0 <= i < s.len(),
        s[i] == '{',
        !s.contains('"'),
    ensures
        match calls::object_end(s, i, 0, false, false) {
            Some(e) => i < e <= s.len() && times(s, '{', i, e) == times(s, '}', i, e)
                && forall|k: int|
                i < k < e ==> #[trigger] times(s, '{', i, k) > times(s, '}', i, k),
            None => forall|k: int|
                i < k <= s.len() ==> #[trigger] times(s, '{', i, k) > times(s, '}', i, k),
        },
{
    lemma_balance(s, i + 1, 1, false);
    assert forall|k: int| i < k <= s.len() implies #[trigger] times(s, '{', i, k) - times(
        s,
        '}',
        i,
        k,
    ) == 1 + times(s, '{', i + 1, k) - times(s, '}', i + 1, k) by {
        lemma_times_step(s, '{', i, k);
        lemma_times_step(s, '}', i, k);
    }
}

/// Braces inside a string literal do not count: a literal changes nothing about
/// where the object around it ends. An escaped character does not end a literal.
pub proof fn string_literals_are_passed_over(s: Seq<char>, j: int, k: int, depth: int)
    requires
        0 <= j < k < s.len(),
        s[j] == '"',
        s[k] == '"',
        forall|i: int| j < i < k ==> (#[trigger] s[i]) != '"' && s[i] != '\\',
    ensures
        calls::object_end(s, j, depth, false, false) == calls::object_end(
            s,
            k + 1,
            depth,
            false,
            false,
        ),
        forall|i: int|
            0 <= i < s.len() - 1 && (#[trigger] s[i]) == '\\' ==> calls::object_end(
                s,
                i,
                depth,
                true,
                false,
            ) == calls::object_end(s, i + 2, depth, true, false),
{
    lemma_in_string(s, j + 1, k, depth);
    assert forall|i: int| 0 <= i < s.len() - 1 && (#[trigger] s[i]) == '\\' implies calls::object_end(
        s,
        i,
        depth,
        true,
        false,
    ) == calls::object_end(s, i + 2, depth, true, false) by {
        assert(calls::object_end(s, i, depth, true, false) == calls::object_end(
            s,
            i + 1,
            depth,
            true,
            true,
        ));
    }
}

proof fn lemma_in_string(s: Seq<char>, i: int, k: int, depth: int)
    requires
        0 <= i <= k < s.len(),
        s[k] == '"',
        forall|j: int| i <= j < k ==> (#[trigger] s[j]) != '"' && s[j] != '\\',
    ensures
        calls::object_end(s, i, depth, true, false) == calls::object_end(
            s,
            k + 1,
            depth,
            false,
            false,
        ),
    decreases k - i,
{
    if i < k {
        lemma_in_string(s, i + 1, k, depth);
    }
}

/// Objects are found from left to right: text without an opening brace holds
/// none; one that is JSON is found where it stands, and the search goes on behind
/// it; one that is not is passed over by a character.
pub proof fn objects_are_found_from_left_to_right(s: Seq<char>, i: int, k: int)
    requires
        0 <= i <= k <= s.len(),
        forall|j: int| i <= j < k ==> (#[trigger] s[j]) != '{',
    ensures
        calls::objects_from(s, i) == calls::objects_from(s, k),
        k == s.len() ==> calls::objects_from(s, i).len() == 0,
        k < s.len() && s[k] == '{' ==> match calls::object_end(s, k, 0, false, false) {
            Some(e) => match json::json_value(s.subrange(k, e)) {
                Some(value) => calls::objects_from(s, i) == seq![
                    FoundView { start: k, end: e, value },
                ] + calls::objects_from(s, e),
                None => calls::objects_from(s, i) == calls::objects_from(s, k + 1),
            },
            None => calls::objects_from(s, i) == calls::objects_from(s, k + 1),
        },
    decreases k - i,
{
    if i < k {
        objects_are_found_from_left_to_right(s, i + 1, k);
    }
}

/// The arguments of a native call are what stands behind the colon, up to the
/// next marker or to the end, without white space around it.
pub proof fn native_arguments_end_at_a_marker(args: Seq<char>, rest: Seq<char>)
    requires
        !args.contains('✿'),
        !rest.contains('✿'),
    ensures
        markup::native_args(seq![':'] + args) == text::trimmed(args),
        markup::native_args(seq![':'] + (args + "✿RESULT✿"@ + rest)) == text::trimmed(args),
        markup::native_args(seq![':'] + (args + "✿RETURN✿"@ + rest)) == text::trimmed(args),
        markup::native_args(seq![':'] + (args + "✿FUNCTION✿"@ + rest)) == text::trimmed(args),
{
    reveal_strlit("✿FUNCTION✿");
    reveal_strlit("✿RESULT✿");
    reveal_strlit("✿RETURN✿");
    lemma_behind_colon(args);
    lemma_flower(args, FN_NAME@);
    lemma_flower(args, FN_RESULT@);
    lemma_flower(args, FN_EXIT@);
    assert(args.take(args.len() as int) =~= args);
    let a = args + FN_RESULT@ + rest;
    lemma_behind_colon(a);
    lemma_only_marker(args, FN_RESULT@, rest);
    assert(a.take(args.len() as int) =~= args);
    let b = args + FN_EXIT@ + rest;
    lemma_behind_colon(b);
    lemma_only_marker(args, FN_EXIT@, rest);
    assert(b.take(args.len() as int) =~= args);
    let c = args + FN_NAME@ + rest;
    lemma_behind_colon(c);
    lemma_first_flower(args, rest);
    assert(c.take(args.len() as int) =~= args);
}

proof fn lemma_behind_colon(t: Seq<char>)
    ensures
        text::find_from(seq![':'] + t, 0, ":"@) == Some(0int),
        (seq![':'] + t).skip(1) == t,
{
    reveal_strlit(":");
    let s = seq![':'] + t;
    assert(s.subrange(0, 1) =~= ":"@);
    assert(s.skip(1) =~= t);
}

proof fn lemma_only_marker(x: Seq<char>, m: Seq<char>, y: Seq<char>)
    requires
        !x.contains('✿'),
        !y.contains('✿'),
        m == FN_RESULT@ || m == FN_EXIT@,
    ensures
        text::find_from(x + m + y, 0, m) == Some(x.len() as int),
        text::find_from(x + m + y, 0, FN_NAME@) is None,
        m == FN_EXIT@ ==> text::find_from(x + m + y, 0, FN_RESULT@) is None,
{
    reveal_strlit("✿FUNCTION✿");
    reveal_strlit("✿RESULT✿");
    reveal_strlit("✿RETURN✿");
    let h = x + m + y;
    let n = x.len() as int;
    assert forall|i: int| 0 <= i < h.len() && h[i] == '✿' implies i == n || i == n + 7 by {
        if i < n {
            assert(x.contains(x[i]));
        } else if i >= n + 8 {
            assert(y.contains(y[i - n - 8]));
        }
    }
    text::find_from_is_first(h, 0, m);
    assert(h.subrange(n, n + 8) =~= m);
    assert(text::occurs_at(h, m, n));
    let j = text::find_from(h, 0, m).unwrap();
    assert(h.subrange(j, j + 8)[0] == h[j]);
    text::find_from_is_first(h, 0, FN_NAME@);
    if let Some(k) = text::find_from(h, 0, FN_NAME@) {
        let f = h.subrange(k, k + 10);
        assert(f[0] == h[k]);
        assert(f[1] == h[k + 1]);
        assert(f[9] == h[k + 9]);
    }
    text::find_from_is_first(h, 0, FN_RESULT@);
    if m == FN_EXIT@ {
        if let Some(k) = text::find_from(h, 0, FN_RESULT@) {
            let f = h.subrange(k, k + 8);
            assert(f[0] == h[k]);
            assert(f[3] == h[k + 3]);
            assert(f[7] == h[k + 7]);
        }
    }
}

/// Of text with a native call and its result, what stands before the call and
/// behind the marker of the result is shown, without white space around it.
pub proof fn text_around_native_calls_is_shown(x: Seq<char>, inner: Seq<char>, y: Seq<char>)
    requires
        !x.contains('✿'),
        !y.contains('✿'),
        text::find_from("✿FUNCTION✿"@ + inner + "✿RESULT✿"@, 0, "✿RESULT✿"@) == Some(
            10 + inner.len() as int,
        ),
    ensures
        response::native_display(x + "✿FUNCTION✿"@ + inner + "✿RESULT✿"@ + y) == text::trimmed(
            x + y,
        ),
{
    reveal_strlit("✿RESULT✿");
    reveal_strlit("✿RETURN✿");
    native_calls_are_taken_out_whole(x, inner, y);
    let n = x.len() as int;
    let m = x + FN_RESULT@;
    text::find_from_is_first(m, 0, FN_RESULT@);
    assert(m.subrange(n, n + 8) =~= FN_RESULT@);
    assert(text::occurs_at(m, FN_RESULT@, n));
    let j = text::find_from(m, 0, FN_RESULT@).unwrap();
    if j < n {
        assert(m.subrange(j, j + 8)[0] == m[j]);
        assert(x.contains(x[j]));
    }
    markers_are_taken_out_one_by_one(x, y, FN_RESULT@);
    lemma_flower(y, FN_RESULT@);
    markers_are_taken_out_one_by_one(y, y, FN_RESULT@);
    let left = x + y;
    assert forall|i: int| 0 <= i < left.len() implies left[i] != '✿' by {
        if i < n {
            assert(x.contains(x[i]));
        } else {
            assert(y.contains(y[i - n]));
        }
    }
    lemma_flower(left, FN_EXIT@);
    markers_are_taken_out_one_by_one(left, left, FN_EXIT@);
    text_without_markers_is_shown(left);
}

proof fn lemma_trimmed_behind(a: Seq<char>, w: Seq<char>)
    requires
        a.len() > 0,
        !text::is_space(a.last()),
        forall|i: int| 0 <= i < w.len() ==> text::is_space(#[trigger] w[i]),
    ensures
        text::trimmed_end(a + w) == a,
{
    let s = a + w;
    text::trimming_takes_only_space(s);
    let n = text::trimmed_end(s).len() as int;
    assert(s[a.len() - 1] == a.last());
    assert(n >= a.len());
    if n > a.len() {
        assert(text::trimmed_end(s).last() == s[n - 1]);
        assert(s[n - 1] == w[n - 1 - a.len()]);
    }
    assert(s.take(n) =~= a);
}

proof fn lemma_trimmed_before(w: Seq<char>, a: Seq<char>)
    requires
        a.len() > 0,
        !text::is_space(a[0]),
        forall|i: int| 0 <= i < w.len() ==> text::is_space(#[trigger] w[i]),
    ensures
        text::trimmed_start(w + a) == a,
{
    let s = w + a;
    text::trimming_takes_only_space(s);
    let n = s.len() - text::trimmed_start(s).len();
    assert(s[w.len() as int] == a[0]);
    assert(n <= w.len());
    if n < w.len() {
        assert(text::trimmed_start(s)[0] == s[n]);
        assert(s[n] == w[n]);
    }
    assert(s.skip(n) =~= a);
}

/// A code fence right before an object and one right behind it, with nothing but
/// white space between, go with the object.
pub proof fn fences_go_with_the_object(
    x: Seq<char>,
    v: Seq<char>,
    object: Seq<char>,
    w: Seq<char>,
    y: Seq<char>,
)
    requires
        forall|i: int| 0 <= i < v.len() ==> text::is_space(#[trigger] v[i]),
        forall|i: int| 0 <= i < w.len() ==> text::is_space(#[trigger] w[i]),
    ensures
        ({
            let s = x + "```json"@ + v + object + w + "```"@ + y;
            let start = (x.len() + 7 + v.len()) as int;
            calls::expanded_span(s, start, start + object.len()) == (
                x.len() as int,
                s.len() - y.len(),
            )
        }),
{
    reveal_strlit("```json");
    reveal_strlit("```");
    let s = x + "```json"@ + v + object + w + "```"@ + y;
    let start = (x.len() + 7 + v.len()) as int;
    let end = start + object.len();
    let head = x + "```json"@;
    assert(s.take(start) =~= head + v);
    assert(head.last() == 'n');
    lemma_trimmed_behind(head, v);
    assert(head.subrange(head.len() - 7, head.len() as int) =~= "```json"@);
    let tail = "```"@ + y;
    assert(s.skip(end) =~= w + tail);
    assert(tail[0] == '`');
    lemma_trimmed_before(w, tail);
    assert(tail.subrange(0, 3) =~= "```"@);
}

/// Without a fence next to it an object is taken for itself.
pub proof fn an_object_without_fences_stands_alone(s: Seq<char>, start: int, end: int)
    requires
        0 <= start <= end <= s.len(),
        !text::finishes_with(text::trimmed_end(s.take(start)), "```json"@),
        !text::finishes_with(text::trimmed_end(s.take(start)), "```"@),
        !text::begins_with(text::trimmed_start(s.skip(end)), "```"@),
    ensures
        calls::expanded_span(s, start, end) == (start, end),
{
}

} // verus!
