//! Tool-call markup inside a model's text: where calls stand, and the text
//! that is left when they are taken out.

use crate::text;
use vstd::prelude::*;
use vstd::string::*;

verus! {

/// Marker before a function's name in the native format.
pub const FN_NAME: &'static str = "✿FUNCTION✿";

/// Marker before a function's arguments in the native format.
pub const FN_ARGS: &'static str = "✿ARGS✿";

/// Marker before a function's result in the native format.
pub const FN_RESULT: &'static str = "✿RESULT✿";

/// Marker before the final answer in the native format.
pub const FN_EXIT: &'static str = "✿RETURN✿";

/// Words at which a model that writes native calls is to stop.
pub const QWEN_FN_STOP_WORDS: [&'static str; 2] = ["✿RESULT✿", "✿RETURN✿"];

/// The tag that opens a Hermes tool call.
pub const CALL_OPEN: &'static str = "<tool_call>";

/// The tag that closes a Hermes tool call.
pub const CALL_CLOSE: &'static str = "</tool_call>";

/// A Hermes closing tag at or after an opening tag begins after that tag ends.
pub proof fn lemma_hermes_tags(s: Seq<char>, a: int, e: int)
    requires
        text::occurs_at(s, CALL_OPEN@, a),
        text::occurs_at(s, CALL_CLOSE@, e),
        a <= e,
    ensures
        CALL_OPEN@.len() == 11,
        CALL_CLOSE@.len() == 12,
        a + 11 <= e,
        e + 12 <= s.len(),
{
    reveal_strlit("<tool_call>");
    reveal_strlit("</tool_call>");
    let open = s.subrange(a, a + 11);
    let close = s.subrange(e, e + 12);
    if e < a + 11 {
        assert(close[0] == s[e]);
        assert(open[e - a] == s[e]);
        assert(e == a);
        assert(close[1] == s[e + 1]);
        assert(open[1] == s[e + 1]);
    }
}

/// The texts between each Hermes opening tag at or after `pos` and the first
/// closing tag behind it, without white space at either end. An opening tag
/// with no closing tag ends the search.
pub open spec fn hermes_bodies_from(s: Seq<char>, pos: int) -> Seq<Seq<char>>
    decreases s.len() - pos,
{
    if pos < 0 {
        Seq::empty()
    } else {
        match text::find_from(s, pos, CALL_OPEN@) {
            Some(a) => match text::find_from(s, a, CALL_CLOSE@) {
                Some(e) => {
                    proof {
                        text::find_from_is_first(s, pos, CALL_OPEN@);
                        text::find_from_is_first(s, a, CALL_CLOSE@);
                        lemma_hermes_tags(s, a, e);
                    }
                    seq![text::trimmed(s.subrange(a + 11, e))] + hermes_bodies_from(s, e + 12)
                },
                None => Seq::empty(),
            },
            None => Seq::empty(),
        }
    }
}

/// The bodies of the Hermes tool calls in `text`, in order.
pub fn hermes_bodies(text: &str) -> (r: Vec<String>)
    ensures
        text::texts(r@) == hermes_bodies_from(text@, 0),
{
    let v = text::chars_of(text);
    let open = text::chars_of(CALL_OPEN);
    let close = text::chars_of(CALL_CLOSE);
    let mut out: Vec<String> = Vec::new();
    let mut pos: usize = 0;
    assert(text::texts(out@) =~= Seq::empty());
    loop
        invariant
            v@ == text@,
            open@ == CALL_OPEN@,
            close@ == CALL_CLOSE@,
            pos <= v@.len(),
            text::texts(out@) + hermes_bodies_from(v@, pos as int) == hermes_bodies_from(v@, 0),
        ensures
            text::texts(out@) == hermes_bodies_from(v@, 0),
        decreases v@.len() - pos,
    {
        let a: usize = match text::find_chars(&v, pos, &open) {
            Some(a) => a,
            None => {
                assert(hermes_bodies_from(v@, pos as int) =~= Seq::empty());
                break;
            },
        };
        let e: usize = match text::find_chars(&v, a, &close) {
            Some(e) => e,
            None => {
                assert(hermes_bodies_from(v@, pos as int) =~= Seq::empty());
                break;
            },
        };
        proof {
            text::find_from_is_first(v@, pos as int, CALL_OPEN@);
            text::find_from_is_first(v@, a as int, CALL_CLOSE@);
            lemma_hermes_tags(v@, a as int, e as int);
        }
        let ghost before = text::texts(out@);
        let total: usize = v.len();
        assert(e + 12 <= total);
        let body = text::trim_range(&v, a + 11, e);
        out.push(body);
        proof {
            assert(text::texts(out@) =~= before.push(body@));
            assert(before.push(body@) + hermes_bodies_from(v@, e + 12) =~= before + (seq![body@]
                + hermes_bodies_from(v@, e + 12)));
        }
        pos = e + 12;
    }
    out
}

/// `s` without its Hermes tool calls, tags and all. An opening tag with no
/// closing tag takes everything behind it with it.
pub open spec fn without_hermes(s: Seq<char>) -> Seq<char>
    decreases s.len(),
{
    match text::find_from(s, 0, CALL_OPEN@) {
        Some(a) => match text::find_from(s, a, CALL_CLOSE@) {
            Some(e) => {
                proof {
                    text::find_from_is_first(s, 0, CALL_OPEN@);
                    text::find_from_is_first(s, a, CALL_CLOSE@);
                    lemma_hermes_tags(s, a, e);
                }
                without_hermes(s.take(a) + s.skip(e + 12))
            },
            None => s.take(a),
        },
        None => s,
    }
}

/// The characters of `v` without those at `from..to`.
fn cut(v: &Vec<char>, from: usize, to: usize) -> (r: Vec<char>)
    requires
        from <= to <= v@.len(),
    ensures
        r@ == v@.take(from as int) + v@.skip(to as int),
{
    let mut out: Vec<char> = Vec::new();
    let mut i: usize = 0;
    while i < from
        invariant
            i <= from <= v@.len(),
            out@ == v@.take(i as int),
        decreases from - i,
    {
        out.push(v[i]);
        assert(v@.take(i as int + 1) == v@.take(i as int).push(v@[i as int]));
        i = i + 1;
    }
    let mut j: usize = to;
    assert(v@.take(from as int) + v@.subrange(to as int, to as int) =~= v@.take(from as int));
    while j < v.len()
        invariant
            from <= to <= j <= v@.len(),
            out@ == v@.take(from as int) + v@.subrange(to as int, j as int),
        decreases v@.len() - j,
    {
        out.push(v[j]);
        assert(v@.subrange(to as int, j as int + 1) == v@.subrange(to as int, j as int).push(
            v@[j as int],
        ));
        j = j + 1;
    }
    assert(v@.skip(to as int) == v@.subrange(to as int, v@.len() as int));
    out
}

/// `text` without its Hermes tool calls.
pub fn strip_hermes(text: &str) -> (r: String)
    ensures
        r@ == without_hermes(text@),
{
    let open = text::chars_of(CALL_OPEN);
    let close = text::chars_of(CALL_CLOSE);
    let mut v = text::chars_of(text);
    loop
        invariant
            open@ == CALL_OPEN@,
            close@ == CALL_CLOSE@,
            without_hermes(v@) == without_hermes(text@),
        decreases v@.len(),
    {
        let a: usize = match text::find_chars(&v, 0, &open) {
            Some(a) => a,
            None => {
                assert(v@.subrange(0, v@.len() as int) == v@);
                return text::string_of(&v, 0, v.len());
            },
        };
        proof {
            text::find_from_is_first(v@, 0, CALL_OPEN@);
        }
        match text::find_chars(&v, a, &close) {
            Some(e) => {
                proof {
                    text::find_from_is_first(v@, a as int, CALL_CLOSE@);
                    lemma_hermes_tags(v@, a as int, e as int);
                }
                let total: usize = v.len();
                assert(e + 12 <= total);
                v = cut(&v, a, e + 12);
            },
            None => {
                return text::string_of(&v, 0, a);
            },
        }
    }
}

/// A native result or exit marker at or after a function marker begins behind
/// that marker's first character.
pub proof fn lemma_native_markers(s: Seq<char>, a: int, e: int, stop: Seq<char>)
    requires
        text::occurs_at(s, FN_NAME@, a),
        text::occurs_at(s, stop, e),
        stop == FN_RESULT@ || stop == FN_EXIT@,
        a <= e,
    ensures
        a < e <= s.len(),
{
    reveal_strlit("✿FUNCTION✿");
    reveal_strlit("✿RESULT✿");
    reveal_strlit("✿RETURN✿");
    if a == e {
        let m = s.subrange(a, a + FN_NAME@.len());
        let n = s.subrange(e, e + stop.len());
        assert(m[1] == s[a + 1]);
        assert(n[1] == s[a + 1]);
    }
}

/// Where the native call that begins at `a` ends: at the first result marker
/// behind it, or else at the first exit marker, or else with the text.
pub open spec fn native_end(s: Seq<char>, a: int) -> int {
    match text::find_from(s, a, FN_RESULT@) {
        Some(e) => e,
        None => match text::find_from(s, a, FN_EXIT@) {
            Some(e) => e,
            None => s.len() as int,
        },
    }
}

/// A native call covers at least one character.
pub proof fn lemma_native_end(s: Seq<char>, a: int)
    requires
        text::occurs_at(s, FN_NAME@, a),
    ensures
        a < native_end(s, a) <= s.len(),
{
    text::find_from_is_first(s, a, FN_RESULT@);
    text::find_from_is_first(s, a, FN_EXIT@);
    match text::find_from(s, a, FN_RESULT@) {
        Some(e) => lemma_native_markers(s, a, e, FN_RESULT@),
        None => match text::find_from(s, a, FN_EXIT@) {
            Some(e) => lemma_native_markers(s, a, e, FN_EXIT@),
            None => {
                reveal_strlit("✿FUNCTION✿");
            },
        },
    }
}

/// `s` without its native calls.
pub open spec fn without_native_calls(s: Seq<char>) -> Seq<char>
    decreases s.len(),
{
    match text::find_from(s, 0, FN_NAME@) {
        Some(a) => {
            proof {
                text::find_from_is_first(s, 0, FN_NAME@);
                lemma_native_end(s, a);
            }
            without_native_calls(s.take(a) + s.skip(native_end(s, a)))
        },
        None => s,
    }
}

/// `text` without its native calls.
pub fn strip_native_calls(text: &str) -> (r: String)
    ensures
        r@ == without_native_calls(text@),
{
    let name = text::chars_of(FN_NAME);
    let result = text::chars_of(FN_RESULT);
    let exit = text::chars_of(FN_EXIT);
    let mut v = text::chars_of(text);
    loop
        invariant
            name@ == FN_NAME@,
            result@ == FN_RESULT@,
            exit@ == FN_EXIT@,
            without_native_calls(v@) == without_native_calls(text@),
        decreases v@.len(),
    {
        let a: usize = match text::find_chars(&v, 0, &name) {
            Some(a) => a,
            None => {
                assert(v@.subrange(0, v@.len() as int) == v@);
                return text::string_of(&v, 0, v.len());
            },
        };
        proof {
            text::find_from_is_first(v@, 0, FN_NAME@);
            lemma_native_end(v@, a as int);
        }
        let end: usize = match text::find_chars(&v, a, &result) {
            Some(e) => e,
            None => match text::find_chars(&v, a, &exit) {
                Some(e) => e,
                None => v.len(),
            },
        };
        v = cut(&v, a, end);
    }
}

/// `s` from `pos` on without any occurrence of `pat`, found from left to right.
pub open spec fn without_from(s: Seq<char>, pos: int, pat: Seq<char>) -> Seq<char>
    decreases s.len() - pos,
{
    if pos < 0 || pat.len() == 0 {
        s
    } else {
        match text::find_from(s, pos, pat) {
            Some(i) => {
                proof {
                    text::find_from_is_first(s, pos, pat);
                }
                s.subrange(pos, i) + without_from(s, i + pat.len(), pat)
            },
            None => s.skip(pos),
        }
    }
}

/// `text` without any occurrence of `pat`.
pub fn remove_all(text: &str, pat: &str) -> (r: String)
    requires
        pat@.len() > 0,
    ensures
        r@ == without_from(text@, 0, pat@),
{
    let v = text::chars_of(text);
    let p = text::chars_of(pat);
    let mut out = String::new();
    let mut pos: usize = 0;
    loop
        invariant
            v@ == text@,
            p@ == pat@,
            pat@.len() > 0,
            pos <= v@.len(),
            out@ + without_from(v@, pos as int, pat@) == without_from(v@, 0, pat@),
        decreases v@.len() - pos,
    {
        match text::find_chars(&v, pos, &p) {
            Some(i) => {
                proof {
                    text::find_from_is_first(v@, pos as int, pat@);
                }
                let piece = text::string_of(&v, pos, i);
                let ghost before = out@;
                out.append(piece.as_str());
                proof {
                    assert(before + (piece@ + without_from(v@, i + pat@.len(), pat@)) =~= (before
                        + piece@) + without_from(v@, i + pat@.len(), pat@));
                }
                let total: usize = v.len();
                assert(i + p@.len() <= total);
                pos = i + p.len();
            },
            None => {
                let piece = text::string_of(&v, pos, v.len());
                out.append(piece.as_str());
                assert(v@.skip(pos as int) == v@.subrange(pos as int, v@.len() as int));
                return out;
            },
        }
    }
}

/// The name of a native call, from the text behind the colon that follows the
/// function marker: up to the end of the line, or else up to the argument
/// marker.
pub open spec fn native_name(rest: Seq<char>) -> Seq<char> {
    match text::find_from(rest, 0, "\n"@) {
        Some(i) => text::trimmed(rest.take(i)),
        None => match text::find_from(rest, 0, FN_ARGS@) {
            Some(i) => text::trimmed(rest.take(i)),
            None => text::trimmed(rest),
        },
    }
}

/// Where the arguments at the start of `t` end: at the first function marker,
/// or else the first result marker, or else the first exit marker, or else
/// with the text.
pub open spec fn native_args_end(t: Seq<char>) -> int {
    match text::find_from(t, 0, FN_NAME@) {
        Some(i) => i,
        None => match text::find_from(t, 0, FN_RESULT@) {
            Some(i) => i,
            None => match text::find_from(t, 0, FN_EXIT@) {
                Some(i) => i,
                None => t.len() as int,
            },
        },
    }
}

/// The arguments of a native call, from what follows the argument marker: the
/// text behind the first colon up to the next marker.
pub open spec fn native_args(section: Seq<char>) -> Seq<char> {
    match text::find_from(section, 0, ":"@) {
        Some(c) => {
            let t = section.skip(c + 1);
            text::trimmed(t.take(native_args_end(t)))
        },
        None => Seq::empty(),
    }
}

/// The name and the argument text of the native call that `piece`, the text
/// behind a function marker, holds. There is none without a colon, without an
/// argument marker, without a name or without arguments.
pub open spec fn native_call_text(piece: Seq<char>) -> Option<(Seq<char>, Seq<char>)> {
    let p = text::trimmed(piece);
    match text::find_from(p, 0, ":"@) {
        Some(c) => {
            let name = native_name(text::trimmed_start(p.skip(c + 1)));
            match text::find_from(p, 0, FN_ARGS@) {
                Some(a) => {
                    let args = native_args(p.skip(a + FN_ARGS@.len()));
                    if name.len() > 0 && args.len() > 0 {
                        Some((name, args))
                    } else {
                        None
                    }
                },
                None => None,
            }
        },
        None => None,
    }
}

/// The native calls that the pieces hold, in order.
pub open spec fn native_texts_of(pieces: Seq<Seq<char>>) -> Seq<(Seq<char>, Seq<char>)>
    decreases pieces.len(),
{
    if pieces.len() == 0 {
        Seq::empty()
    } else {
        let before = native_texts_of(pieces.drop_last());
        match native_call_text(pieces.last()) {
            Some(c) => before.push(c),
            None => before,
        }
    }
}

/// The name and the argument text of each native call in `s`, in order.
pub open spec fn native_texts(s: Seq<char>) -> Seq<(Seq<char>, Seq<char>)> {
    native_texts_of(text::split_from(s, 0, FN_NAME@).skip(1))
}

/// What a list of name and argument texts holds.
pub open spec fn pair_texts(v: Seq<(String, String)>) -> Seq<(Seq<char>, Seq<char>)> {
    Seq::new(v.len(), |i: int| (v[i].0@, v[i].1@))
}

fn prefix_chars(v: &Vec<char>, to: usize) -> (r: Vec<char>)
    requires
        to <= v@.len(),
    ensures
        r@ == v@.take(to as int),
{
    assert(v@.take(to as int) == v@.subrange(0, to as int));
    text::sub_chars(v, 0, to)
}

fn suffix_chars(v: &Vec<char>, from: usize) -> (r: Vec<char>)
    requires
        from <= v@.len(),
    ensures
        r@ == v@.skip(from as int),
{
    assert(v@.skip(from as int) == v@.subrange(from as int, v@.len() as int));
    text::sub_chars(v, from, v.len())
}

fn whole(v: &Vec<char>) -> (r: String)
    ensures
        r@ == v@,
{
    assert(v@.subrange(0, v@.len() as int) == v@);
    text::string_of(v, 0, v.len())
}

fn find_in(v: &Vec<char>, n: &str) -> (r: Option<usize>)
    ensures
        match r {
            Some(i) => text::find_from(v@, 0, n@) == Some(i as int) && i + n@.len() <= v@.len()
                <= usize::MAX,
            None => text::find_from(v@, 0, n@) is None,
        },
{
    let total: usize = v.len();
    let needle = text::chars_of(n);
    proof {
        text::find_from_is_first(v@, 0, n@);
    }
    text::find_chars(v, 0, &needle)
}

/// The name of a native call.
fn read_native_name(rest: &Vec<char>) -> (r: Vec<char>)
    ensures
        r@ == native_name(rest@),
{
    match find_in(rest, "\n") {
        Some(i) => text::trim_chars(&prefix_chars(rest, i)),
        None => match find_in(rest, FN_ARGS) {
            Some(i) => text::trim_chars(&prefix_chars(rest, i)),
            None => text::trim_chars(rest),
        },
    }
}

/// The arguments of a native call.
fn read_native_args(section: &Vec<char>) -> (r: Vec<char>)
    ensures
        r@ == native_args(section@),
{
    match find_in(section, ":") {
        Some(c) => {
            proof {
                reveal_strlit(":");
            }
            let t = suffix_chars(section, c + 1);
            let end: usize = match find_in(&t, FN_NAME) {
                Some(i) => i,
                None => match find_in(&t, FN_RESULT) {
                    Some(i) => i,
                    None => match find_in(&t, FN_EXIT) {
                        Some(i) => i,
                        None => t.len(),
                    },
                },
            };
            text::trim_chars(&prefix_chars(&t, end))
        },
        None => {
            let none: Vec<char> = Vec::new();
            assert(none@ =~= Seq::empty());
            none
        },
    }
}

/// The name and the argument text of the native call that `piece` holds.
fn read_native_call(piece: &Vec<char>) -> (r: Option<(String, String)>)
    ensures
        match r {
            Some(c) => native_call_text(piece@) == Some((c.0@, c.1@)),
            None => native_call_text(piece@) is None,
        },
{
    let p = text::trim_chars(piece);
    let c: usize = match find_in(&p, ":") {
        Some(c) => c,
        None => {
            return None;
        },
    };
    proof {
        reveal_strlit(":");
    }
    let rest = text::trim_start_chars(&suffix_chars(&p, c + 1));
    let name = read_native_name(&rest);
    match find_in(&p, FN_ARGS) {
        Some(a) => {
            let marker = text::chars_of(FN_ARGS);
            let total: usize = p.len();
            let args = read_native_args(&suffix_chars(&p, a + marker.len()));
            if name.len() > 0 && args.len() > 0 {
                Some((whole(&name), whole(&args)))
            } else {
                None
            }
        },
        None => None,
    }
}

/// The name and the argument text of each native call in `text`, in order.
pub fn native_call_texts(text: &str) -> (r: Vec<(String, String)>)
    ensures
        pair_texts(r@) == native_texts(text@),
{
    proof {
        reveal_strlit("✿FUNCTION✿");
    }
    let pieces = text::split(text, FN_NAME);
    let ghost all = text::split_from(text@, 0, FN_NAME@).skip(1);
    let mut out: Vec<(String, String)> = Vec::new();
    let mut i: usize = 1;
    assert(pair_texts(out@) =~= native_texts_of(all.take(0)));
    while i < pieces.len()
        invariant
            1 <= i <= pieces@.len(),
            text::char_lists(pieces@) == text::split_from(text@, 0, FN_NAME@),
            all == text::split_from(text@, 0, FN_NAME@).skip(1),
            pair_texts(out@) == native_texts_of(all.take(i - 1)),
        decreases pieces@.len() - i,
    {
        let ghost before = pair_texts(out@);
        proof {
            assert(all.take(i as int).drop_last() =~= all.take(i - 1));
            assert(all.take(i as int).last() == text::char_lists(pieces@)[i as int]);
        }
        match read_native_call(&pieces[i]) {
            Some(c) => {
                out.push(c);
                assert(pair_texts(out@) =~= before.push((c.0@, c.1@)));
            },
            None => {},
        }
        i = i + 1;
    }
    assert(all.take(pieces@.len() - 1) =~= all);
    out
}

/// `s` without the beginning of `marker`, of `i` characters or more, that it
/// ends with; the shortest such beginning is taken.
pub open spec fn without_partial(s: Seq<char>, marker: Seq<char>, i: int) -> Seq<char>
    decreases marker.len() - i,
{
    if i >= marker.len() {
        s
    } else if text::finishes_with(s, marker.take(i)) {
        s.take(s.len() - i)
    } else {
        without_partial(s, marker, i + 1)
    }
}

/// Whether `s` ends with a whole native marker.
pub open spec fn ends_whole(s: Seq<char>) -> bool {
    ||| text::finishes_with(s, FN_NAME@)
    ||| text::finishes_with(s, FN_ARGS@)
    ||| text::finishes_with(s, FN_RESULT@)
    ||| text::finishes_with(s, FN_EXIT@)
}

/// `s` without the beginning of `marker` that it ends with. The end of a whole
/// marker is no beginning of another.
pub open spec fn without_end(s: Seq<char>, marker: Seq<char>) -> Seq<char> {
    if ends_whole(s) {
        s
    } else {
        without_partial(s, marker, 1)
    }
}

/// `s` without a marker's beginning at its end, for each native marker in turn.
pub open spec fn without_incomplete_markers(s: Seq<char>) -> Seq<char> {
    let a = without_end(s, FN_NAME@);
    let b = without_end(a, FN_ARGS@);
    let c = without_end(b, FN_RESULT@);
    without_end(c, FN_EXIT@)
}

fn ends_with(v: &Vec<char>, part: &Vec<char>) -> (r: bool)
    ensures
        r == text::finishes_with(v@, part@),
{
    part.len() <= v.len() && text::occurs(v, part, v.len() - part.len())
}

fn ends_in_marker(v: &Vec<char>) -> (r: bool)
    ensures
        r == ends_whole(v@),
{
    ends_with(v, &text::chars_of(FN_NAME)) || ends_with(v, &text::chars_of(FN_ARGS)) || ends_with(
        v,
        &text::chars_of(FN_RESULT),
    ) || ends_with(v, &text::chars_of(FN_EXIT))
}

fn drop_partial(v: Vec<char>, marker: &str) -> (r: Vec<char>)
    ensures
        r@ == without_end(v@, marker@),
{
    if ends_in_marker(&v) {
        return v;
    }
    let m = text::chars_of(marker);
    let mut i: usize = 1;
    while i < m.len()
        invariant
            1 <= i,
            m@ == marker@,
            !ends_whole(v@),
            without_partial(v@, marker@, i as int) == without_partial(v@, marker@, 1),
        decreases m@.len() - i,
    {
        let part = prefix_chars(&m, i);
        if ends_with(&v, &part) {
            return prefix_chars(&v, v.len() - i);
        }
        i = i + 1;
    }
    v
}

/// `text` without a native marker's beginning at its end. A whole marker stays.
pub fn clean_markers(text: &str) -> (r: String)
    ensures
        r@ == without_incomplete_markers(text@),
        ends_whole(text@) ==> r@ == text@,
{
    let a = drop_partial(text::chars_of(text), FN_NAME);
    let b = drop_partial(a, FN_ARGS);
    let c = drop_partial(b, FN_RESULT);
    let d = drop_partial(c, FN_EXIT);
    whole(&d)
}

/// The reasoning in the first `<think>` block that is closed, and the text
/// around it.
pub open spec fn thinking_parts(s: Seq<char>) -> Option<(Seq<char>, Seq<char>)> {
    match text::find_from(s, 0, "<think>"@) {
        Some(a) => match text::find_from(s, a + 7, "</think>"@) {
            Some(e) => Some(
                (
                    text::trimmed(s.subrange(a + 7, e)),
                    text::trimmed(s.take(a)) + text::trimmed(s.skip(e + 8)),
                ),
            ),
            None => None,
        },
        None => None,
    }
}

/// Parts the first closed `<think>` block from the text around it.
pub fn split_thinking(text: &str) -> (r: Option<(String, String)>)
    ensures
        match r {
            Some(p) => thinking_parts(text@) == Some((p.0@, p.1@)),
            None => thinking_parts(text@) is None,
        },
{
    let v = text::chars_of(text);
    let a: usize = match find_in(&v, "<think>") {
        Some(a) => a,
        None => {
            return None;
        },
    };
    proof {
        reveal_strlit("<think>");
        reveal_strlit("</think>");
    }
    let close = text::chars_of("</think>");
    let total: usize = v.len();
    match text::find_chars(&v, a + 7, &close) {
        Some(e) => {
            proof {
                text::find_from_is_first(v@, a + 7, "</think>"@);
            }
            let thinking = text::trim_range(&v, a + 7, e);
            let mut rest = whole(&text::trim_chars(&prefix_chars(&v, a)));
            let after = whole(&text::trim_chars(&suffix_chars(&v, e + 8)));
            rest.append(after.as_str());
            Some((thinking, rest))
        },
        None => None,
    }
}

} // verus!
