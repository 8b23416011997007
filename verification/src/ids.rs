//! Identifiers made from random UUIDs.

use crate::text;
use vstd::prelude::*;
use vstd::string::*;

verus! {

/// A lower-case hexadecimal digit.
pub open spec fn is_hex(c: char) -> bool {
    ('0' <= c && c <= '9') || ('a' <= c && c <= 'f')
}

/// Whether a UUID has a hyphen at position `i` of its text.
pub open spec fn hyphen_at(i: int) -> bool {
    i == 8 || i == 13 || i == 18 || i == 23
}

/// The text of a UUID: 32 lower-case hexadecimal digits in groups of 8, 4, 4, 4
/// and 12, parted by hyphens.
pub open spec fn is_uuid(s: Seq<char>) -> bool {
    s.len() == 36 && forall|i: int|
        0 <= i < 36 ==> if hyphen_at(i) {
            #[trigger] s[i] == '-'
        } else {
            is_hex(s[i])
        }
}

/// The text of a fresh `uuid::Uuid::new_v4`. The digits are random; only the
/// shape of the text is told.
#[verifier::external_body]
pub(crate) fn new_uuid_text() -> (r: String)
    ensures
        is_uuid(r@),
{
    uuid::Uuid::new_v4().to_string()
}

/// A fresh `uuid::Uuid::new_v4` as a number. It is random, so nothing is told
/// of it.
#[verifier::external_body]
pub(crate) fn new_uuid() -> u128 {
    uuid::Uuid::new_v4().as_u128()
}

/// `s` without its hyphens.
pub open spec fn without_hyphens(s: Seq<char>) -> Seq<char> {
    s.filter(|c: char| c != '-')
}

/// The tool-call identifier made from the UUID text `uuid`: `call_` and the
/// first 24 digits.
pub open spec fn call_id(uuid: Seq<char>) -> Seq<char> {
    "call_"@ + without_hyphens(uuid).take(24)
}

/// Whether `id` is `call_` followed by 24 lower-case hexadecimal digits.
pub open spec fn is_call_id(id: Seq<char>) -> bool {
    &&& id.len() == 29
    &&& id.take(5) == "call_"@
    &&& forall|i: int| 5 <= i < 29 ==> is_hex(#[trigger] id[i])
}

/// The digits of a UUID text, its hyphens left out.
proof fn lemma_uuid_digits(s: Seq<char>)
    requires
        is_uuid(s),
    ensures
        without_hyphens(s) == s.subrange(0, 8) + s.subrange(9, 13) + s.subrange(14, 18)
            + s.subrange(19, 23) + s.subrange(24, 36),
{
    let keep = |c: char| c != '-';
    let groups = seq![s.subrange(0, 8), s.subrange(9, 13), s.subrange(14, 18), s.subrange(19, 23), s.subrange(24, 36)];
    let hyphen = seq!['-'];
    assert(s == groups[0] + hyphen + groups[1] + hyphen + groups[2] + hyphen + groups[3] + hyphen
        + groups[4]);
    assert forall|k: int| 0 <= k < 5 implies #[trigger] groups[k].filter(keep) == groups[k] by {
        lemma_filter_all(groups[k]);
    }
    assert(hyphen.filter(keep) == Seq::<char>::empty()) by {
        reveal(Seq::filter);
        assert(hyphen.drop_last() == Seq::<char>::empty());
        assert(hyphen.drop_last().filter(keep) == Seq::<char>::empty());
    }
    Seq::filter_distributes_over_add(groups[0], hyphen, keep);
    Seq::filter_distributes_over_add(groups[0] + hyphen, groups[1], keep);
    Seq::filter_distributes_over_add(groups[0] + hyphen + groups[1], hyphen, keep);
    Seq::filter_distributes_over_add(groups[0] + hyphen + groups[1] + hyphen, groups[2], keep);
    Seq::filter_distributes_over_add(
        groups[0] + hyphen + groups[1] + hyphen + groups[2],
        hyphen,
        keep,
    );
    Seq::filter_distributes_over_add(
        groups[0] + hyphen + groups[1] + hyphen + groups[2] + hyphen,
        groups[3],
        keep,
    );
    Seq::filter_distributes_over_add(
        groups[0] + hyphen + groups[1] + hyphen + groups[2] + hyphen + groups[3],
        hyphen,
        keep,
    );
    Seq::filter_distributes_over_add(
        groups[0] + hyphen + groups[1] + hyphen + groups[2] + hyphen + groups[3] + hyphen,
        groups[4],
        keep,
    );
    assert(without_hyphens(s) =~= groups[0] + groups[1] + groups[2] + groups[3] + groups[4]);
}

proof fn lemma_filter_all(s: Seq<char>)
    requires
        forall|i: int| 0 <= i < s.len() ==> #[trigger] s[i] != '-',
    ensures
        s.filter(|c: char| c != '-') == s,
    decreases s.len(),
{
    reveal(Seq::filter);
    if s.len() > 0 {
        lemma_filter_all(s.drop_last());
        assert(s.drop_last().push(s.last()) == s);
    }
}

/// The tool-call identifier made from the UUID text `uuid`.
pub fn call_id_from(uuid: &str) -> (r: String)
    requires
        is_uuid(uuid@),
    ensures
        r@ == call_id(uuid@),
        is_call_id(r@),
{
    let v = text::chars_of(uuid);
    let mut out = "call_".to_string();
    proof {
        reveal_strlit("call_");
        lemma_uuid_digits(uuid@);
    }
    let a = text::string_of(&v, 0, 8);
    let b = text::string_of(&v, 9, 13);
    let c = text::string_of(&v, 14, 18);
    let d = text::string_of(&v, 19, 23);
    let e = text::string_of(&v, 24, 28);
    out.append(a.as_str());
    out.append(b.as_str());
    out.append(c.as_str());
    out.append(d.as_str());
    out.append(e.as_str());
    proof {
        assert(out@ =~= call_id(uuid@));
        assert(out@.take(5) =~= "call_"@);
    }
    out
}

/// A tool-call identifier has the first 24 digits of its UUID, in their order, so
/// that UUIDs that differ there give different identifiers.
pub proof fn call_ids_keep_the_digits(u: Seq<char>, w: Seq<char>)
    requires
        is_uuid(u),
        is_uuid(w),
    ensures
        call_id(u) == "call_"@ + u.subrange(0, 8) + u.subrange(9, 13) + u.subrange(14, 18)
            + u.subrange(19, 23) + u.subrange(24, 28),
        is_call_id(call_id(u)),
        call_id(u) == call_id(w) ==> u.take(28) == w.take(28),
{
    reveal_strlit("call_");
    lemma_call_id(u);
    lemma_call_id(w);
    let a = call_id(u);
    let b = call_id(w);
    assert(a.take(5) =~= "call_"@);
    if a == b {
        assert forall|i: int| 0 <= i < 28 implies u[i] == w[i] by {
            if hyphen_at(i) {
            } else if i < 8 {
                assert(a[5 + i] == u[i] && b[5 + i] == w[i]);
            } else if i < 13 {
                assert(a[4 + i] == u[i] && b[4 + i] == w[i]);
            } else if i < 18 {
                assert(a[3 + i] == u[i] && b[3 + i] == w[i]);
            } else if i < 23 {
                assert(a[2 + i] == u[i] && b[2 + i] == w[i]);
            } else {
                assert(a[1 + i] == u[i] && b[1 + i] == w[i]);
            }
        }
        assert(u.take(28) =~= w.take(28));
    }
}

proof fn lemma_call_id(u: Seq<char>)
    requires
        is_uuid(u),
    ensures
        call_id(u) == "call_"@ + u.subrange(0, 8) + u.subrange(9, 13) + u.subrange(14, 18)
            + u.subrange(19, 23) + u.subrange(24, 28),
{
    lemma_uuid_digits(u);
    assert(without_hyphens(u).take(24) =~= u.subrange(0, 8) + u.subrange(9, 13) + u.subrange(14, 18)
        + u.subrange(19, 23) + u.subrange(24, 28));
    assert(call_id(u) =~= "call_"@ + u.subrange(0, 8) + u.subrange(9, 13) + u.subrange(14, 18)
        + u.subrange(19, 23) + u.subrange(24, 28));
}

/// A fresh tool-call identifier.
pub fn generate_call_id() -> (r: String)
    ensures
        is_call_id(r@),
        exists|u: Seq<char>| is_uuid(u) && r@ == #[trigger] call_id(u),
{
    let u = new_uuid_text();
    call_id_from(u.as_str())
}

/// How many hyphens stand before position `i` in the text of a UUID.
pub open spec fn hyphens_before(i: int) -> int {
    if i <= 8 {
        0
    } else if i <= 13 {
        1
    } else if i <= 18 {
        2
    } else if i <= 23 {
        3
    } else {
        4
    }
}

/// The lower-case hexadecimal digit of value `d`.
pub open spec fn hex_digit(d: int) -> char {
    if d < 10 {
        text::digit(d as nat)
    } else if d == 10 {
        'a'
    } else if d == 11 {
        'b'
    } else if d == 12 {
        'c'
    } else if d == 13 {
        'd'
    } else if d == 14 {
        'e'
    } else {
        'f'
    }
}

/// The text of the UUID with the value `id`: its 32 hexadecimal digits, the
/// highest first, with hyphens between the groups.
pub open spec fn uuid_digits(id: u128) -> Seq<char> {
    Seq::new(
        36,
        |i: int|
            if hyphen_at(i) {
                '-'
            } else {
                hex_digit(
                    (id as int / vstd::arithmetic::power::pow(16, (31 - (i - hyphens_before(i))) as nat))
                        % 16,
                )
            },
    )
}

/// The text that `uuid::Uuid` displays for the value `id`: lower-case digits
/// with hyphens.
#[verifier::external_body]
pub(crate) fn uuid_text(id: u128) -> (r: String)
    ensures
        r@ == uuid_digits(id),
{
    uuid::Uuid::from_u128(id).to_string()
}

} // verus!
