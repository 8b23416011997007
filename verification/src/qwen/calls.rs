//! Tool calls read from a model's text.

use crate::ids;
use crate::json;
use crate::qwen::markup;
use crate::qwen::written;
use crate::text;
use serde_json::Value;
use vstd::prelude::*;
use vstd::string::*;

verus! {

/// A tool call read from text, before it is given an identifier.
pub struct CallView {
    pub name: Seq<char>,
    pub input: Value,
}

/// A tool call: its identifier, the tool's name, and the input.
pub type Call = (String, String, Value);

/// Whether `c` is the call `e` under a generated identifier.
pub open spec fn call_fits(c: Call, e: CallView) -> bool {
    ids::is_call_id(c.0@) && c.1@ == e.name && c.2 == e.input
}

/// Whether `c` are the calls `e`, in order, under generated identifiers.
pub open spec fn calls_fit(c: Seq<Call>, e: Seq<CallView>) -> bool {
    c.len() == e.len() && forall|i: int| 0 <= i < c.len() ==> call_fits(#[trigger] c[i], e[i])
}

/// The call that an object with a string `name` and an `arguments` member
/// stands for.
pub open spec fn named_call(v: Value) -> Option<CallView> {
    match json::json_member(v, "name"@) {
        Some(n) => match json::json_string(n) {
            Some(name) => match json::json_member(v, "arguments"@) {
                Some(input) => Some(CallView { name, input }),
                None => None,
            },
            None => None,
        },
        None => None,
    }
}

/// The name and the arguments of the call that `v` stands for.
pub fn read_call(v: &Value) -> (r: Option<(String, Value)>)
    ensures
        match r {
            Some(c) => named_call(*v) == Some(CallView { name: c.0@, input: c.1 }),
            None => named_call(*v) is None,
        },
{
    match json::member(v, "name") {
        Some(n) => match json::string_value(n) {
            Some(name) => match json::member(v, "arguments") {
                Some(input) => Some((name, input.clone())),
                None => None,
            },
            None => None,
        },
        None => None,
    }
}

/// The calls that the bodies of Hermes tags hold, in order. A body that is not
/// JSON, or lacks a name or arguments, holds none.
pub open spec fn calls_in_bodies(bodies: Seq<Seq<char>>) -> Seq<CallView>
    decreases bodies.len(),
{
    if bodies.len() == 0 {
        Seq::empty()
    } else {
        let before = calls_in_bodies(bodies.drop_last());
        match json::json_value(bodies.last()) {
            Some(v) => match named_call(v) {
                Some(c) => before.push(c),
                None => before,
            },
            None => before,
        }
    }
}

/// The Hermes tool calls in `s`, in order.
pub open spec fn hermes_calls(s: Seq<char>) -> Seq<CallView> {
    calls_in_bodies(markup::hermes_bodies_from(s, 0))
}

/// The Hermes tool calls in `text`, each under a fresh identifier. Calls that were
/// written into it are read back, one for each, in the same order.
pub fn parse_hermes(text: &str) -> (r: Vec<Call>)
    ensures
        calls_fit(r@, hermes_calls(text@)),
        written::are_read_back(text@, r@),
{
    let bodies = markup::hermes_bodies(text);
    let ghost all = text::texts(bodies@);
    let mut out: Vec<Call> = Vec::new();
    let mut i: usize = 0;
    while i < bodies.len()
        invariant
            i <= bodies@.len(),
            all == text::texts(bodies@),
            calls_fit(out@, calls_in_bodies(all.take(i as int))),
            forall|k: int|
                0 <= k < i ==> json::holds_call(#[trigger] all[k], json::json_value(all[k])),
        decreases bodies@.len() - i,
    {
        proof {
            assert(all.take(i as int + 1).drop_last() =~= all.take(i as int));
            assert(all.take(i as int + 1).last() == bodies@[i as int]@);
        }
        let value = json::parse_json(bodies[i].as_str());
        assert(json::holds_call(all[i as int], json::json_value(all[i as int])));
        if let Some(v) = value {
            if let Some((name, input)) = read_call(&v) {
                let id = ids::generate_call_id();
                out.push((id, name, input));
            }
        }
        i = i + 1;
    }
    assert(all.take(bodies@.len() as int) =~= all);
    proof {
        assert forall|lead: Seq<char>, uses: Seq<(Seq<char>, Seq<char>, Value)>|
            text@ == #[trigger] written::hermes_text(lead, uses) && written::tags_are_clear(
                lead,
                uses,
            ) && (forall|i: int| 0 <= i < uses.len() ==> written::reads_back(#[trigger] uses[i]))
            implies calls_fit(out@, written::use_calls(uses)) by {
            written::written_objects_are_found(lead, uses);
            assert forall|k: int| 0 <= k < uses.len() implies json::json_value(
                written::use_object(#[trigger] uses[k]),
            ) is Some && named_call(json::json_value(written::use_object(uses[k])).unwrap()) == Some(
                written::use_call(uses[k]),
            ) by {
                assert(all[k] == written::use_object(uses[k]));
                written::lemma_reads_back(uses[k]);
            }
            written::lemma_calls(uses);
        }
    }
    out
}

/// The calls that native names and argument texts stand for, in order. One
/// whose arguments are not JSON stands for none.
pub open spec fn calls_in_pairs(pairs: Seq<(Seq<char>, Seq<char>)>) -> Seq<CallView>
    decreases pairs.len(),
{
    if pairs.len() == 0 {
        Seq::empty()
    } else {
        let before = calls_in_pairs(pairs.drop_last());
        match json::json_value(pairs.last().1) {
            Some(input) => before.push(CallView { name: pairs.last().0, input }),
            None => before,
        }
    }
}

/// The native tool calls in `s`, in order.
pub open spec fn native_calls(s: Seq<char>) -> Seq<CallView> {
    calls_in_pairs(markup::native_texts(s))
}

/// The native tool calls in `text`, each under a fresh identifier.
pub fn parse_native(text: &str) -> (r: Vec<Call>)
    ensures
        calls_fit(r@, native_calls(text@)),
{
    let pairs = markup::native_call_texts(text);
    let ghost all = markup::pair_texts(pairs@);
    let mut out: Vec<Call> = Vec::new();
    let mut i: usize = 0;
    while i < pairs.len()
        invariant
            i <= pairs@.len(),
            all == markup::pair_texts(pairs@),
            calls_fit(out@, calls_in_pairs(all.take(i as int))),
        decreases pairs@.len() - i,
    {
        proof {
            assert(all.take(i as int + 1).drop_last() =~= all.take(i as int));
            assert(all.take(i as int + 1).last() == (pairs@[i as int].0@, pairs@[i as int].1@));
        }
        if let Some(input) = json::parse_json(pairs[i].1.as_str()) {
            let id = ids::generate_call_id();
            out.push((id, pairs[i].0.clone(), input));
        }
        i = i + 1;
    }
    assert(all.take(pairs@.len() as int) =~= all);
    out
}

/// Where the brace that is open at `depth` closes, scanning `s` from `j` on.
/// Braces inside string literals do not count.
pub open spec fn object_end(
    s: Seq<char>,
    j: int,
    depth: int,
    in_string: bool,
    escape: bool,
) -> Option<int>
    decreases s.len() - j,
{
    if j < 0 || j >= s.len() {
        None
    } else if in_string {
        if escape {
            object_end(s, j + 1, depth, true, false)
        } else if s[j] == '\\' {
            object_end(s, j + 1, depth, true, true)
        } else {
            object_end(s, j + 1, depth, s[j] != '"', false)
        }
    } else if s[j] == '"' {
        object_end(s, j + 1, depth, true, escape)
    } else if s[j] == '{' {
        object_end(s, j + 1, depth + 1, false, escape)
    } else if s[j] == '}' {
        if depth == 1 {
            Some(j + 1)
        } else {
            object_end(s, j + 1, depth - 1, false, escape)
        }
    } else {
        object_end(s, j + 1, depth, false, escape)
    }
}

/// A closing brace stands behind the place that the scan began at.
pub proof fn lemma_object_end(s: Seq<char>, j: int, depth: int, in_string: bool, escape: bool)
    ensures
        object_end(s, j, depth, in_string, escape) matches Some(e) ==> j < e <= s.len(),
    decreases s.len() - j,
{
    if 0 <= j < s.len() {
        if in_string {
            if escape {
                lemma_object_end(s, j + 1, depth, true, false);
            } else if s[j] == '\\' {
                lemma_object_end(s, j + 1, depth, true, true);
            } else {
                lemma_object_end(s, j + 1, depth, s[j] != '"', false);
            }
        } else if s[j] == '"' {
            lemma_object_end(s, j + 1, depth, true, escape);
        } else if s[j] == '{' {
            lemma_object_end(s, j + 1, depth + 1, false, escape);
        } else if s[j] == '}' {
            if depth != 1 {
                lemma_object_end(s, j + 1, depth - 1, false, escape);
            }
        } else {
            lemma_object_end(s, j + 1, depth, false, escape);
        }
    }
}

/// Where the object whose opening brace is at `start` closes.
pub fn balanced_end(v: &[char], start: usize) -> (r: Option<usize>)
    requires
        start < v@.len(),
        v@[start as int] == '{',
    ensures
        match r {
            Some(e) => object_end(v@, start as int, 0, false, false) == Some(e as int) && start < e
                <= v@.len(),
            None => object_end(v@, start as int, 0, false, false) is None,
        },
{
    let total: usize = v.len();
    let mut j: usize = start + 1;
    let mut depth: usize = 1;
    let mut in_string: bool = false;
    let mut escape: bool = false;
    while j < total
        invariant
            total == v@.len(),
            start < j <= total,
            1 <= depth <= j,
            object_end(v@, start as int, 0, false, false) == object_end(
                v@,
                j as int,
                depth as int,
                in_string,
                escape,
            ),
        decreases total - j,
    {
        let c = v[j];
        if in_string {
            if escape {
                escape = false;
            } else if c == '\\' {
                escape = true;
            } else if c == '"' {
                in_string = false;
            }
        } else if c == '"' {
            in_string = true;
        } else if c == '{' {
            depth = depth + 1;
        } else if c == '}' {
            if depth == 1 {
                return Some(j + 1);
            }
            depth = depth - 1;
        }
        j = j + 1;
    }
    None
}

/// A JSON object found in text, and where it stands.
pub struct FoundView {
    pub start: int,
    pub end: int,
    pub value: Value,
}

/// The JSON objects in `s` from `i` on. An opening brace whose balanced span is
/// not JSON is passed over by one character, so that an object nested in it is
/// still found.
pub open spec fn objects_from(s: Seq<char>, i: int) -> Seq<FoundView>
    decreases s.len() - i,
{
    if i < 0 || i >= s.len() {
        Seq::empty()
    } else if s[i] != '{' {
        objects_from(s, i + 1)
    } else {
        match object_end(s, i, 0, false, false) {
            Some(e) => match json::json_value(s.subrange(i, e)) {
                Some(value) => {
                    proof {
                        lemma_object_end(s, i, 0, false, false);
                    }
                    seq![FoundView { start: i, end: e, value }] + objects_from(s, e)
                },
                None => objects_from(s, i + 1),
            },
            None => objects_from(s, i + 1),
        }
    }
}

/// What a list of spans and values holds.
pub open spec fn found_views(v: Seq<(usize, usize, Value)>) -> Seq<FoundView> {
    Seq::new(v.len(), |i: int| FoundView { start: v[i].0 as int, end: v[i].1 as int, value: v[i].2 })
}

/// The JSON objects in `v`, with the positions of their characters.
pub fn find_json_objects(v: &[char]) -> (r: Vec<(usize, usize, Value)>)
    ensures
        found_views(r@) == objects_from(v@, 0),
        forall|i: int| 0 <= i < r@.len() ==> (#[trigger] r@[i]).0 < r@[i].1 <= v@.len(),
{
    let mut out: Vec<(usize, usize, Value)> = Vec::new();
    let mut i: usize = 0;
    assert(found_views(out@) =~= Seq::empty());
    while i < v.len()
        invariant
            i <= v@.len(),
            found_views(out@) + objects_from(v@, i as int) == objects_from(v@, 0),
            forall|k: int| 0 <= k < out@.len() ==> (#[trigger] out@[k]).0 < out@[k].1 <= v@.len(),
        decreases v@.len() - i,
    {
        let mut next: usize = i + 1;
        if v[i] == '{' {
            if let Some(e) = balanced_end(v, i) {
                let span = text::string_of(v, i, e);
                if let Some(value) = json::parse_json(span.as_str()) {
                    let ghost before = found_views(out@);
                    let ghost found = FoundView { start: i as int, end: e as int, value };
                    out.push((i, e, value));
                    proof {
                        let rest = objects_from(v@, e as int);
                        assert(found_views(out@) =~= before.push(found));
                        assert(before.push(found) + rest =~= before + (seq![found] + rest));
                    }
                    next = e;
                }
            }
        }
        i = next;
    }
    assert(found_views(out@) + objects_from(v@, i as int) =~= found_views(out@));
    out
}

/// The span `start..end` of `s` together with a code fence right before it and
/// one right behind it, where only white space stands between.
pub open spec fn expanded_span(s: Seq<char>, start: int, end: int) -> (int, int) {
    let before = text::trimmed_end(s.take(start));
    let after = text::trimmed_start(s.skip(end));
    let from = if text::finishes_with(before, "```json"@) {
        before.len() - 7
    } else if text::finishes_with(before, "```"@) {
        before.len() - 3
    } else {
        start
    };
    let to = if text::begins_with(after, "```"@) {
        s.len() - (after.len() - 3)
    } else {
        end
    };
    (from, to)
}

/// The span `start..end` together with the code fences next to it.
pub fn expand_span_over_adjacent_fences(v: &[char], start: usize, end: usize) -> (r: (
    usize,
    usize,
))
    requires
        start <= end <= v@.len(),
    ensures
        (r.0 as int, r.1 as int) == expanded_span(v@, start as int, end as int),
        r.0 <= start,
        end <= r.1 <= v@.len(),
{
    proof {
        reveal_strlit("```json");
        reveal_strlit("```");
        assert(v@.take(start as int) =~= v@.subrange(0, start as int));
        assert(v@.skip(end as int) =~= v@.subrange(end as int, v@.len() as int));
    }
    let json_fence = text::chars_of("```json");
    let fence = text::chars_of("```");
    let head = text::sub_chars(v, 0, start);
    let before = text::trim_end_chars(&head);
    let from: usize = if before.len() >= 7 && text::occurs(&before, &json_fence, before.len() - 7) {
        before.len() - 7
    } else if before.len() >= 3 && text::occurs(&before, &fence, before.len() - 3) {
        before.len() - 3
    } else {
        start
    };
    let tail = text::sub_chars(v, end, v.len());
    let after = text::trim_start_chars(&tail);
    let to: usize = if text::occurs(&after, &fence, 0) {
        v.len() - (after.len() - 3)
    } else {
        end
    };
    (from, to)
}

/// Whether position `i` lies in one of the spans.
pub open spec fn covered(spans: Seq<(int, int)>, i: int) -> bool {
    exists|k: int| 0 <= k < spans.len() && (#[trigger] spans[k]).0 <= i < spans[k].1
}

/// `s` without the characters that lie in one of the spans.
pub open spec fn without_spans(s: Seq<char>, spans: Seq<(int, int)>) -> Seq<char>
    decreases s.len(),
{
    if s.len() == 0 {
        Seq::empty()
    } else {
        let before = without_spans(s.drop_last(), spans);
        if covered(spans, s.len() - 1) {
            before
        } else {
            before.push(s.last())
        }
    }
}

/// What a list of spans holds.
pub open spec fn span_views(v: Seq<(usize, usize)>) -> Seq<(int, int)> {
    Seq::new(v.len(), |i: int| (v[i].0 as int, v[i].1 as int))
}

/// The text of `v` without the characters that lie in one of the spans.
pub fn remove_spans(v: &[char], spans: &Vec<(usize, usize)>) -> (r: String)
    ensures
        r@ == without_spans(v@, span_views(spans@)),
{
    let ghost all = span_views(spans@);
    let mut out = String::new();
    let mut i: usize = 0;
    while i < v.len()
        invariant
            i <= v@.len(),
            all == span_views(spans@),
            out@ == without_spans(v@.take(i as int), all),
        decreases v@.len() - i,
    {
        let mut inside = false;
        let mut k: usize = 0;
        while k < spans.len()
            invariant
                k <= spans@.len(),
                all == span_views(spans@),
                inside == exists|m: int| 0 <= m < k && (#[trigger] all[m]).0 <= i < all[m].1,
            decreases spans@.len() - k,
        {
            let hit = spans[k].0 <= i && i < spans[k].1;
            proof {
                assert(all[k as int] == (spans@[k as int].0 as int, spans@[k as int].1 as int));
            }
            inside = inside || hit;
            k = k + 1;
        }
        proof {
            assert(v@.take(i as int + 1).drop_last() =~= v@.take(i as int));
            assert(v@.take(i as int + 1).last() == v@[i as int]);
            assert(inside == covered(all, i as int));
        }
        if !inside {
            out.push(v[i]);
        }
        i = i + 1;
    }
    assert(v@.take(v@.len() as int) =~= v@);
    out
}

/// The input of a call whose arguments are `arguments`: where they are a
/// string, what that string is as JSON, and an empty object if it is not JSON.
pub open spec fn argument_value(arguments: Value) -> Value {
    match json::json_string(arguments) {
        Some(t) => match json::json_value(t) {
            Some(v) => v,
            None => json::empty_json(),
        },
        None => arguments,
    }
}

fn read_arguments(arguments: Value) -> (r: Value)
    ensures
        r == argument_value(arguments),
{
    match json::string_value(&arguments) {
        Some(t) => match json::parse_json(t.as_str()) {
            Some(v) => v,
            None => json::empty_object(),
        },
        None => arguments,
    }
}

/// The call that an object in plain text stands for. Its name has to be one of
/// the tools that were offered.
pub open spec fn offered_call(v: Value, known: Seq<Seq<char>>) -> Option<CallView> {
    match named_call(v) {
        Some(c) => if known.contains(c.name) {
            Some(CallView { name: c.name, input: argument_value(c.input) })
        } else {
            None
        },
        None => None,
    }
}

/// The calls to offered tools among the objects found, and the span that each
/// takes with its code fences.
pub open spec fn offered_calls(s: Seq<char>, found: Seq<FoundView>, known: Seq<Seq<char>>) -> (
    Seq<CallView>,
    Seq<(int, int)>,
)
    decreases found.len(),
{
    if found.len() == 0 {
        (Seq::empty(), Seq::empty())
    } else {
        let (calls, spans) = offered_calls(s, found.drop_last(), known);
        let last = found.last();
        match offered_call(last.value, known) {
            Some(c) => (calls.push(c), spans.push(expanded_span(s, last.start, last.end))),
            None => (calls, spans),
        }
    }
}

/// The calls to offered tools that stand in `s` as plain JSON objects.
pub open spec fn fallback_calls(s: Seq<char>, known: Seq<Seq<char>>) -> Seq<CallView> {
    offered_calls(s, objects_from(s, 0), known).0
}

/// `s` without those calls and the code fences next to them.
pub open spec fn fallback_text(s: Seq<char>, known: Seq<Seq<char>>) -> Seq<char> {
    without_spans(s, offered_calls(s, objects_from(s, 0), known).1)
}

/// Without spans nothing is taken out.
proof fn lemma_no_spans(s: Seq<char>)
    ensures
        without_spans(s, Seq::empty()) == s,
    decreases s.len(),
{
    if s.len() > 0 {
        lemma_no_spans(s.drop_last());
        assert(s.drop_last().push(s.last()) =~= s);
    } else {
        assert(s =~= Seq::empty());
    }
}

proof fn lemma_as_many_spans(s: Seq<char>, found: Seq<FoundView>, known: Seq<Seq<char>>)
    ensures
        offered_calls(s, found, known).0.len() == offered_calls(s, found, known).1.len(),
    decreases found.len(),
{
    if found.len() > 0 {
        lemma_as_many_spans(s, found.drop_last(), known);
    }
}

/// Text that holds no call to an offered tool is left as it is.
pub proof fn lemma_nothing_found(s: Seq<char>, known: Seq<Seq<char>>)
    ensures
        fallback_calls(s, known).len() == 0 ==> fallback_text(s, known) == s,
{
    lemma_as_many_spans(s, objects_from(s, 0), known);
    lemma_no_spans(s);
    if fallback_calls(s, known).len() == 0 {
        assert(offered_calls(s, objects_from(s, 0), known).1 =~= Seq::empty());
    }
}

/// Whether `name` is among the texts.
pub fn is_known(known: &[String], name: &str) -> (r: bool)
    ensures
        r == text::texts(known@).contains(name@),
{
    let mut i: usize = 0;
    while i < known.len()
        invariant
            i <= known@.len(),
            forall|k: int| 0 <= k < i ==> (#[trigger] known@[k])@ != name@,
        decreases known@.len() - i,
    {
        if text::same(known[i].as_str(), name) {
            assert(text::texts(known@)[i as int] == name@);
            return true;
        }
        i = i + 1;
    }
    false
}

/// The calls to offered tools that stand in `text` as plain JSON objects, each
/// under a fresh identifier, and the text without them.
pub fn parse_fallback(text: &str, known: &[String]) -> (r: (Vec<Call>, String))
    ensures
        calls_fit(r.0@, fallback_calls(text@, text::texts(known@))),
        r.1@ == fallback_text(text@, text::texts(known@)),
{
    let v = text::chars_of(text);
    let found = find_json_objects(&v);
    let ghost names = text::texts(known@);
    let ghost all = found_views(found@);
    let mut calls: Vec<Call> = Vec::new();
    let mut spans: Vec<(usize, usize)> = Vec::new();
    let mut i: usize = 0;
    assert(span_views(spans@) =~= Seq::empty());
    while i < found.len()
        invariant
            i <= found@.len(),
            v@ == text@,
            names == text::texts(known@),
            all == found_views(found@),
            forall|k: int|
                0 <= k < found@.len() ==> (#[trigger] found@[k]).0 < found@[k].1 <= v@.len(),
            calls_fit(calls@, offered_calls(text@, all.take(i as int), names).0),
            span_views(spans@) == offered_calls(text@, all.take(i as int), names).1,
        decreases found@.len() - i,
    {
        proof {
            assert(all.take(i as int + 1).drop_last() =~= all.take(i as int));
            assert(all.take(i as int + 1).last() == all[i as int]);
        }
        if let Some((name, arguments)) = read_call(&found[i].2) {
            if is_known(known, name.as_str()) {
                let input = read_arguments(arguments);
                let id = ids::generate_call_id();
                let ghost before = span_views(spans@);
                let span = expand_span_over_adjacent_fences(&v, found[i].0, found[i].1);
                calls.push((id, name, input));
                spans.push(span);
                assert(span_views(spans@) =~= before.push((span.0 as int, span.1 as int)));
            }
        }
        i = i + 1;
    }
    assert(all.take(found@.len() as int) =~= all);
    let clean = remove_spans(&v, &spans);
    (calls, clean)
}

} // verus!
