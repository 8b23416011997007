//! Operations on text, stated over the sequence of its characters.

use vstd::prelude::*;
use vstd::string::*;

verus! {

/// `String::push` appends one character to the end of the string.
pub assume_specification[ String::push ](s: &mut String, c: char)
    ensures
        final(s)@ == old(s)@.push(c),
;

/// `str::to_lowercase` of `s`.
pub uninterp spec fn lowercase(s: Seq<char>) -> Seq<char>;

/// `str::to_lowercase`. The result depends on the text alone.
#[verifier::external_body]
pub(crate) fn to_lowercase(s: &str) -> (r: String)
    ensures
        r@ == lowercase(s@),
{
    s.to_lowercase()
}

/// The characters of `s`, in order.
pub fn chars_of(s: &str) -> (r: Vec<char>)
    ensures
        r@ == s@,
{
    let mut out: Vec<char> = Vec::new();
    for c in it: s.chars()
        invariant
            it.seq() == s@,
            out@ == s@.take(it.index() as int),
    {
        out.push(c);
        proof {
            assert(s@.take(it.index() as int + 1) == s@.take(it.index() as int).push(c));
        }
    }
    assert(s@.take(s@.len() as int) == s@);
    out
}

/// The text made of the characters `from..to` of `v`.
pub fn string_of(v: &[char], from: usize, to: usize) -> (r: String)
    requires
        from <= to <= v@.len(),
    ensures
        r@ == v@.subrange(from as int, to as int),
{
    let mut out = String::new();
    let mut i: usize = from;
    while i < to
        invariant
            from <= i <= to <= v@.len(),
            out@ == v@.subrange(from as int, i as int),
        decreases to - i,
    {
        out.push(v[i]);
        proof {
            assert(v@.subrange(from as int, i as int + 1) == v@.subrange(
                from as int,
                i as int,
            ).push(v@[i as int]));
        }
        i = i + 1;
    }
    out
}

/// The characters `from..to` of `v`.
pub fn sub_chars(v: &[char], from: usize, to: usize) -> (r: Vec<char>)
    requires
        from <= to <= v@.len(),
    ensures
        r@ == v@.subrange(from as int, to as int),
{
    let mut out: Vec<char> = Vec::new();
    let mut i: usize = from;
    while i < to
        invariant
            from <= i <= to <= v@.len(),
            out@ == v@.subrange(from as int, i as int),
        decreases to - i,
    {
        out.push(v[i]);
        proof {
            assert(v@.subrange(from as int, i as int + 1) == v@.subrange(
                from as int,
                i as int,
            ).push(v@[i as int]));
        }
        i = i + 1;
    }
    out
}

/// The first `n` characters of `s`, or all of them if there are fewer.
pub open spec fn at_most(s: Seq<char>, n: nat) -> Seq<char> {
    if s.len() <= n {
        s
    } else {
        s.take(n as int)
    }
}

/// The first `n` characters of `s`, or all of them if there are fewer.
pub fn take_chars(s: &str, n: usize) -> (r: String)
    ensures
        r@ == at_most(s@, n as nat),
{
    let v = chars_of(s);
    let end: usize = if v.len() <= n {
        v.len()
    } else {
        n
    };
    assert(v@.subrange(0, end as int) =~= at_most(s@, n as nat));
    string_of(&v, 0, end)
}

/// Whether two texts hold the same characters.
pub fn same(a: &str, b: &str) -> (r: bool)
    ensures
        r == (a@ == b@),
{
    let x = chars_of(a);
    let y = chars_of(b);
    if x.len() != y.len() {
        return false;
    }
    let mut i: usize = 0;
    while i < x.len()
        invariant
            i <= x@.len(),
            x@.len() == y@.len(),
            x@ == a@,
            y@ == b@,
            forall|j: int| 0 <= j < i ==> x@[j] == y@[j],
        decreases x@.len() - i,
    {
        if x[i] != y[i] {
            return false;
        }
        i = i + 1;
    }
    assert(x@ == y@);
    true
}

/// Whether `n` stands in `h` at position `i`.
pub open spec fn occurs_at(h: Seq<char>, n: Seq<char>, i: int) -> bool {
    0 <= i && i + n.len() <= h.len() && h.subrange(i, i + n.len()) == n
}

/// The first position at or after `start` where `n` stands in `h`.
pub open spec fn find_from(h: Seq<char>, start: int, n: Seq<char>) -> Option<int>
    decreases h.len() + 1 - start,
{
    if start < 0 || start + n.len() > h.len() {
        None
    } else if occurs_at(h, n, start) {
        Some(start)
    } else {
        find_from(h, start + 1, n)
    }
}

/// `find_from` gives the least position at or after `start` where `n` stands,
/// and `None` exactly when there is no such position.
pub proof fn find_from_is_first(h: Seq<char>, start: int, n: Seq<char>)
    requires
        0 <= start,
    ensures
        match find_from(h, start, n) {
            Some(i) => start <= i && occurs_at(h, n, i) && (forall|j: int|
                start <= j < i ==> !occurs_at(h, n, j)),
            None => forall|j: int| start <= j ==> !occurs_at(h, n, j),
        },
    decreases h.len() + 1 - start,
{
    if start + n.len() > h.len() {
    } else if occurs_at(h, n, start) {
    } else {
        find_from_is_first(h, start + 1, n);
    }
}

/// Whether `n` stands in `h` at position `i`.
pub fn occurs(h: &[char], n: &[char], i: usize) -> (r: bool)
    ensures
        r == occurs_at(h@, n@, i as int),
{
    if n.len() > h.len() || i > h.len() - n.len() {
        return false;
    }
    let total: usize = h.len();
    let mut k: usize = 0;
    while k < n.len()
        invariant
            k <= n@.len(),
            total == h@.len(),
            i + n@.len() <= h@.len(),
            forall|j: int| 0 <= j < k ==> h@[i + j] == n@[j],
        decreases n@.len() - k,
    {
        if h[i + k] != n[k] {
            proof {
                assert(h@.subrange(i as int, i + n@.len())[k as int] != n@[k as int]);
            }
            return false;
        }
        k = k + 1;
    }
    assert(h@.subrange(i as int, i + n@.len()) == n@);
    true
}

/// The first position at or after `start` where `n` stands in `h`.
pub fn find_chars(h: &[char], start: usize, n: &[char]) -> (r: Option<usize>)
    ensures
        match r {
            Some(i) => find_from(h@, start as int, n@) == Some(i as int),
            None => find_from(h@, start as int, n@) is None,
        },
{
    let mut i: usize = start;
    while i <= h.len() && n.len() <= h.len() - i
        invariant
            find_from(h@, start as int, n@) == find_from(h@, i as int, n@),
        decreases h@.len() + 1 - i,
    {
        if occurs(h, n, i) {
            return Some(i);
        }
        if i == h.len() {
            assert(h@.subrange(i as int, i as int) == n@);
            return None;
        }
        i = i + 1;
    }
    None
}

/// Whether `h` begins with `n`.
pub open spec fn begins_with(h: Seq<char>, n: Seq<char>) -> bool {
    occurs_at(h, n, 0)
}

/// Whether `h` ends with `n`.
pub open spec fn finishes_with(h: Seq<char>, n: Seq<char>) -> bool {
    occurs_at(h, n, h.len() - n.len())
}

/// Whether `h` begins with `n`.
pub fn starts_with(h: &str, n: &str) -> (r: bool)
    ensures
        r == begins_with(h@, n@),
{
    let x = chars_of(h);
    let y = chars_of(n);
    occurs(&x, &y, 0)
}

/// Whether `h` ends with `n`.
pub fn ends_with(h: &str, n: &str) -> (r: bool)
    ensures
        r == finishes_with(h@, n@),
{
    let x = chars_of(h);
    let y = chars_of(n);
    if y.len() > x.len() {
        return false;
    }
    occurs(&x, &y, x.len() - y.len())
}

/// Whether `n` stands anywhere in `h`.
pub fn contains(h: &str, n: &str) -> (r: bool)
    ensures
        r == (find_from(h@, 0, n@) is Some),
{
    let x = chars_of(h);
    let y = chars_of(n);
    find_chars(&x, 0, &y).is_some()
}

/// Whether `c` has the Unicode property White_Space.
pub open spec fn is_space(c: char) -> bool {
    let n = c as u32;
    ||| 0x9 <= n <= 0xd
    ||| n == 0x20
    ||| n == 0x85
    ||| n == 0xa0
    ||| n == 0x1680
    ||| 0x2000 <= n <= 0x200a
    ||| n == 0x2028
    ||| n == 0x2029
    ||| n == 0x202f
    ||| n == 0x205f
    ||| n == 0x3000
}

/// Whether `c` has the Unicode property White_Space.
pub fn is_whitespace(c: char) -> (r: bool)
    ensures
        r == is_space(c),
{
    let n: u32 = c as u32;
    (0x9 <= n && n <= 0xd) || n == 0x20 || n == 0x85 || n == 0xa0 || n == 0x1680 || (0x2000 <= n
        && n <= 0x200a) || n == 0x2028 || n == 0x2029 || n == 0x202f || n == 0x205f || n == 0x3000
}

/// `s` without the white space it begins with.
pub open spec fn trimmed_start(s: Seq<char>) -> Seq<char>
    decreases s.len(),
{
    if s.len() > 0 && is_space(s[0]) {
        trimmed_start(s.subrange(1, s.len() as int))
    } else {
        s
    }
}

/// `s` without the white space it ends with.
pub open spec fn trimmed_end(s: Seq<char>) -> Seq<char>
    decreases s.len(),
{
    if s.len() > 0 && is_space(s.last()) {
        trimmed_end(s.drop_last())
    } else {
        s
    }
}

/// `s` without white space at either end.
pub open spec fn trimmed(s: Seq<char>) -> Seq<char> {
    trimmed_end(trimmed_start(s))
}

/// The bounds of `v[from..to]` without the white space at its start.
fn skip_space(v: &[char], from: usize, to: usize) -> (r: usize)
    requires
        from <= to <= v@.len(),
    ensures
        from <= r <= to,
        trimmed_start(v@.subrange(from as int, to as int)) == v@.subrange(r as int, to as int),
{
    let mut i: usize = from;
    while i < to && is_whitespace(v[i])
        invariant
            from <= i <= to <= v@.len(),
            trimmed_start(v@.subrange(from as int, to as int)) == trimmed_start(
                v@.subrange(i as int, to as int),
            ),
        decreases to - i,
    {
        proof {
            let t = v@.subrange(i as int, to as int);
            assert(t.subrange(1, t.len() as int) == v@.subrange(i as int + 1, to as int));
        }
        i = i + 1;
    }
    i
}

/// The end of `v[from..to]` without the white space at its end.
fn drop_space(v: &[char], from: usize, to: usize) -> (r: usize)
    requires
        from <= to <= v@.len(),
    ensures
        from <= r <= to,
        trimmed_end(v@.subrange(from as int, to as int)) == v@.subrange(from as int, r as int),
{
    let mut j: usize = to;
    while j > from && is_whitespace(v[j - 1])
        invariant
            from <= j <= to <= v@.len(),
            trimmed_end(v@.subrange(from as int, to as int)) == trimmed_end(
                v@.subrange(from as int, j as int),
            ),
        decreases j,
    {
        proof {
            let t = v@.subrange(from as int, j as int);
            assert(t.drop_last() == v@.subrange(from as int, j as int - 1));
        }
        j = j - 1;
    }
    j
}

/// The characters of `v` without the white space they begin with.
pub fn trim_start_chars(v: &[char]) -> (r: Vec<char>)
    ensures
        r@ == trimmed_start(v@),
        r@.len() <= v@.len(),
{
    assert(v@.subrange(0, v@.len() as int) == v@);
    let a = skip_space(v, 0, v.len());
    sub_chars(v, a, v.len())
}

/// The characters of `v` without the white space they end with.
pub fn trim_end_chars(v: &[char]) -> (r: Vec<char>)
    ensures
        r@ == trimmed_end(v@),
        r@.len() <= v@.len(),
{
    assert(v@.subrange(0, v@.len() as int) == v@);
    let b = drop_space(v, 0, v.len());
    sub_chars(v, 0, b)
}

/// The characters of `v` without white space at either end.
pub fn trim_chars(v: &[char]) -> (r: Vec<char>)
    ensures
        r@ == trimmed(v@),
{
    assert(v@.subrange(0, v@.len() as int) == v@);
    let a = skip_space(v, 0, v.len());
    let b = drop_space(v, a, v.len());
    sub_chars(v, a, b)
}

/// The text of `v[from..to]` without white space at either end.
pub fn trim_range(v: &[char], from: usize, to: usize) -> (r: String)
    requires
        from <= to <= v@.len(),
    ensures
        r@ == trimmed(v@.subrange(from as int, to as int)),
{
    let a = skip_space(v, from, to);
    let b = drop_space(v, a, to);
    string_of(v, a, b)
}

/// `s` without white space at either end.
pub fn trim(s: &str) -> (r: String)
    ensures
        r@ == trimmed(s@),
{
    let v = chars_of(s);
    assert(v@.subrange(0, v@.len() as int) == v@);
    trim_range(&v, 0, v.len())
}

/// `parts` one after the other with `sep` between each two.
pub open spec fn joined(parts: Seq<Seq<char>>, sep: Seq<char>) -> Seq<char>
    decreases parts.len(),
{
    if parts.len() == 0 {
        Seq::empty()
    } else if parts.len() == 1 {
        parts[0]
    } else {
        joined(parts.drop_last(), sep) + sep + parts.last()
    }
}

/// The texts that a list of strings holds.
pub open spec fn texts(v: Seq<String>) -> Seq<Seq<char>> {
    Seq::new(v.len(), |i: int| v[i]@)
}

/// `parts` one after the other with `sep` between each two.
pub fn join(parts: &Vec<String>, sep: &str) -> (r: String)
    ensures
        r@ == joined(texts(parts@), sep@),
{
    let mut out = String::new();
    let mut i: usize = 0;
    while i < parts.len()
        invariant
            i <= parts@.len(),
            out@ == joined(texts(parts@.take(i as int)), sep@),
        decreases parts@.len() - i,
    {
        let ghost before = texts(parts@.take(i as int));
        let ghost after = texts(parts@.take(i as int + 1));
        if i > 0 {
            out.append(sep);
        }
        out.append(parts[i].as_str());
        proof {
            assert(after.drop_last() == before);
            assert(after.last() == parts@[i as int]@);
        }
        i = i + 1;
    }
    assert(parts@.take(parts@.len() as int) == parts@);
    out
}

/// The character that writes the digit `d`.
pub open spec fn digit(d: nat) -> char {
    if d == 0 {
        '0'
    } else if d == 1 {
        '1'
    } else if d == 2 {
        '2'
    } else if d == 3 {
        '3'
    } else if d == 4 {
        '4'
    } else if d == 5 {
        '5'
    } else if d == 6 {
        '6'
    } else if d == 7 {
        '7'
    } else if d == 8 {
        '8'
    } else {
        '9'
    }
}

/// `n` written in base ten, without leading zeros.
pub open spec fn decimal(n: nat) -> Seq<char>
    decreases n,
{
    if n < 10 {
        seq![digit(n)]
    } else {
        decimal(n / 10).push(digit(n % 10))
    }
}

fn digit_char(d: u64) -> (r: char)
    requires
        d < 10,
    ensures
        r == digit(d as nat),
{
    match d {
        0 => '0',
        1 => '1',
        2 => '2',
        3 => '3',
        4 => '4',
        5 => '5',
        6 => '6',
        7 => '7',
        8 => '8',
        _ => '9',
    }
}

/// `n` written in base ten, without leading zeros.
pub fn decimal_string(n: u64) -> (r: String)
    ensures
        r@ == decimal(n as nat),
    decreases n,
{
    if n < 10 {
        let mut s = String::new();
        s.push(digit_char(n));
        assert(s@ == seq![digit(n as nat)]);
        s
    } else {
        let mut s = decimal_string(n / 10);
        s.push(digit_char(n % 10));
        s
    }
}

/// The value of the digit that `c` writes.
pub open spec fn digit_value(c: char) -> Option<nat> {
    match c {
        '0' => Some(0),
        '1' => Some(1),
        '2' => Some(2),
        '3' => Some(3),
        '4' => Some(4),
        '5' => Some(5),
        '6' => Some(6),
        '7' => Some(7),
        '8' => Some(8),
        '9' => Some(9),
        _ => None,
    }
}

/// The number that the digits `s` write in base ten; nothing if one of them is
/// no digit.
pub open spec fn digits_value(s: Seq<char>) -> Option<nat>
    decreases s.len(),
{
    if s.len() == 0 {
        Some(0)
    } else {
        match (digits_value(s.drop_last()), digit_value(s.last())) {
            (Some(n), Some(d)) => Some(10 * n + d),
            _ => None,
        }
    }
}

/// The number that `s` writes: one or more digits, which a plus may stand
/// before, and not more than fits.
pub open spec fn number(s: Seq<char>) -> Option<u64> {
    let digits = if s.len() > 0 && s[0] == '+' {
        s.skip(1)
    } else {
        s
    };
    match digits_value(digits) {
        Some(n) if digits.len() > 0 && n <= u64::MAX => Some(n as u64),
        _ => None,
    }
}

fn value_of_digit(c: char) -> (r: Option<u64>)
    ensures
        match r {
            Some(d) => d < 10 && digit_value(c) == Some(d as nat),
            None => digit_value(c) is None,
        },
{
    match c {
        '0' => Some(0),
        '1' => Some(1),
        '2' => Some(2),
        '3' => Some(3),
        '4' => Some(4),
        '5' => Some(5),
        '6' => Some(6),
        '7' => Some(7),
        '8' => Some(8),
        '9' => Some(9),
        _ => None,
    }
}

proof fn lemma_too_much(s: Seq<char>, i: int)
    requires
        0 <= i <= s.len(),
        digits_value(s.take(i)) matches Some(n) ==> n > u64::MAX,
    ensures
        digits_value(s) matches Some(n) ==> n > u64::MAX,
    decreases s.len() - i,
{
    if i < s.len() {
        assert(s.take(i + 1).drop_last() =~= s.take(i));
        lemma_too_much(s, i + 1);
    } else {
        assert(s.take(i) =~= s);
    }
}

/// The number that `s` writes.
pub fn parse_number(s: &str) -> (r: Option<u64>)
    ensures
        r == number(s@),
{
    let v = chars_of(s);
    let start: usize = if v.len() > 0 && v[0] == '+' {
        1
    } else {
        0
    };
    let ghost digits = v@.skip(start as int);
    assert(start == 0 ==> digits =~= s@);
    if start == v.len() {
        return None;
    }
    let mut n: u64 = 0;
    let mut i: usize = start;
    assert(digits.take(0) =~= Seq::empty());
    while i < v.len()
        invariant
            start <= i <= v@.len(),
            v@ == s@,
            start < v@.len(),
            digits == v@.skip(start as int),
            number(s@) == (match digits_value(digits) {
                Some(n) if n <= u64::MAX => Some(n as u64),
                _ => None,
            }),
            digits_value(digits.take(i - start)) == Some(n as nat),
        decreases v@.len() - i,
    {
        proof {
            let next = digits.take(i - start + 1);
            assert(next.drop_last() =~= digits.take(i - start));
            assert(next.last() == v@[i as int]);
        }
        match value_of_digit(v[i]) {
            Some(d) => {
                if n > 1844674407370955161 || (n == 1844674407370955161 && d > 5) {
                    proof {
                        lemma_too_much(digits, i - start + 1);
                    }
                    return None;
                }
                n = 10 * n + d;
            },
            None => {
                proof {
                    lemma_too_much(digits, i - start + 1);
                }
                return None;
            },
        }
        i = i + 1;
    }
    assert(digits.take(v@.len() - start) =~= digits);
    Some(n)
}

/// Reading a number gives back what was written.
pub proof fn reading_undoes_writing(n: u64)
    ensures
        number(decimal(n as nat)) == Some(n),
{
    lemma_decimal_value(n as nat);
}

proof fn lemma_decimal_value(n: nat)
    ensures
        digits_value(decimal(n)) == Some(n),
        decimal(n).len() > 0,
        decimal(n)[0] != '+',
    decreases n,
{
    let s = decimal(n);
    if n < 10 {
        assert(s.drop_last() =~= Seq::empty());
        assert(digits_value(s.drop_last()) == Some(0nat));
    } else {
        lemma_decimal_value(n / 10);
        assert(s.drop_last() =~= decimal(n / 10));
        assert(s[0] == decimal(n / 10)[0]);
    }
}

/// How many bytes `s` takes in UTF-8.
pub open spec fn byte_len(s: Seq<char>) -> nat {
    vstd::utf8::encode_utf8(s).len()
}

/// The encoding of two texts put together is their encodings put together.
pub proof fn lemma_encode_concat(a: Seq<char>, b: Seq<char>)
    ensures
        vstd::utf8::encode_utf8(a + b) == vstd::utf8::encode_utf8(a) + vstd::utf8::encode_utf8(b),
    decreases a.len(),
{
    if a.len() == 0 {
        assert(a + b =~= b);
        assert(vstd::utf8::encode_utf8(a) =~= Seq::empty());
    } else {
        lemma_encode_concat(a.drop_first(), b);
        assert((a + b).drop_first() =~= a.drop_first() + b);
        assert((a + b)[0] == a[0]);
    }
}

/// A text that is not empty takes at least one byte.
proof fn lemma_byte_len_positive(s: Seq<char>)
    requires
        s.len() > 0,
    ensures
        byte_len(s) > 0,
{
}

/// Texts with the same encoding are the same.
pub proof fn lemma_encode_injective(a: Seq<char>, b: Seq<char>)
    requires
        vstd::utf8::encode_utf8(a) == vstd::utf8::encode_utf8(b),
    ensures
        a == b,
{
    vstd::utf8::encode_utf8_decode_utf8(a);
    vstd::utf8::encode_utf8_decode_utf8(b);
}

/// The number of characters of `h` before byte `b`.
pub open spec fn char_index(h: Seq<char>, b: int) -> int {
    choose|k: int| 0 <= k <= h.len() && byte_len(#[trigger] h.take(k)) == b
}

/// `char_index` undoes `byte_len` of a prefix.
pub proof fn lemma_char_index(h: Seq<char>, k: int)
    requires
        0 <= k <= h.len(),
    ensures
        char_index(h, byte_len(h.take(k)) as int) == k,
{
    let b = byte_len(h.take(k)) as int;
    let c = char_index(h, b);
    assert(0 <= c <= h.len() && byte_len(h.take(c)) == b);
    if c < k {
        assert(h.take(k) =~= h.take(c) + h.subrange(c, k));
        lemma_encode_concat(h.take(c), h.subrange(c, k));
        lemma_byte_len_positive(h.subrange(c, k));
    } else if k < c {
        assert(h.take(c) =~= h.take(k) + h.subrange(k, c));
        lemma_encode_concat(h.take(k), h.subrange(k, c));
        lemma_byte_len_positive(h.subrange(k, c));
    }
}

/// Searching in what follows position `p` is searching from there on.
pub proof fn lemma_find_in_rest(h: Seq<char>, p: int, start: int, n: Seq<char>)
    requires
        0 <= p <= h.len(),
        0 <= start,
    ensures
        match find_from(h.skip(p), start, n) {
            Some(i) => find_from(h, p + start, n) == Some(p + i),
            None => find_from(h, p + start, n) is None,
        },
    decreases h.len() + 1 - p - start,
{
    let t = h.skip(p);
    if start + n.len() <= t.len() {
        assert(t.subrange(start, start + n.len()) =~= h.subrange(p + start, p + start + n.len()));
        if !occurs_at(t, n, start) {
            lemma_find_in_rest(h, p, start + 1, n);
        }
    }
}

/// The byte position of `needle` in `haystack` at or after byte `start`.
///
/// A match before `start` is never returned, and the position counts from the
/// start of `haystack`.
pub fn find_after(haystack: &str, start: usize, needle: &str) -> (r: Option<usize>)
    requires
        vstd::utf8::is_char_boundary(haystack.spec_bytes(), start as int),
    ensures
        match find_from(haystack@, char_index(haystack@, start as int), needle@) {
            Some(j) => r is Some && r.unwrap() == byte_len(haystack@.take(j)) && start <= r.unwrap(),
            None => r is None,
        },
{
    let total: usize = haystack.as_bytes().len();
    let (pre, post) = haystack.split_at(start);
    proof {
        let bytes = haystack.spec_bytes();
        vstd::utf8::encode_utf8_valid_utf8(haystack@);
        assert(start <= bytes.len());
        lemma_encode_concat(pre@, post@);
        assert(vstd::utf8::encode_utf8(pre@ + post@) =~= bytes);
        lemma_encode_injective(pre@ + post@, haystack@);
        assert(haystack@.take(pre@.len() as int) =~= pre@);
        assert(haystack@.skip(pre@.len() as int) =~= post@);
        lemma_char_index(haystack@, pre@.len() as int);
        lemma_find_in_rest(haystack@, pre@.len() as int, 0, needle@);
        find_from_is_first(post@, 0, needle@);
    }
    let v = chars_of(post);
    let n = chars_of(needle);
    match find_chars(&v, 0, &n) {
        Some(j) => {
            let before = string_of(&v, 0, j);
            let width: usize = before.as_str().as_bytes().len();
            proof {
                let k = pre@.len() as int;
                assert(haystack@.take(k + j) =~= pre@ + before@);
                lemma_encode_concat(pre@, before@);
                assert(post@ =~= before@ + post@.skip(j as int));
                lemma_encode_concat(before@, post@.skip(j as int));
            }
            Some(start + width)
        },
        None => None,
    }
}

/// The pieces of `s` from `pos` on that `sep` parts.
pub open spec fn split_from(s: Seq<char>, pos: int, sep: Seq<char>) -> Seq<Seq<char>>
    decreases s.len() - pos,
{
    if pos < 0 || sep.len() == 0 {
        seq![s]
    } else {
        match find_from(s, pos, sep) {
            Some(i) => {
                proof {
                    find_from_is_first(s, pos, sep);
                }
                seq![s.subrange(pos, i)] + split_from(s, i + sep.len(), sep)
            },
            None => seq![s.skip(pos)],
        }
    }
}

/// `s` without a carriage return at its end.
pub open spec fn without_return(s: Seq<char>) -> Seq<char> {
    if s.len() > 0 && s.last() == '\r' {
        s.drop_last()
    } else {
        s
    }
}

/// What a list of character lists holds.
pub open spec fn char_lists(v: Seq<Vec<char>>) -> Seq<Seq<char>> {
    Seq::new(v.len(), |i: int| v[i]@)
}

/// The pieces of `text` that `sep` parts.
pub fn split(text: &str, sep: &str) -> (r: Vec<Vec<char>>)
    requires
        sep@.len() > 0,
    ensures
        char_lists(r@) == split_from(text@, 0, sep@),
        r@.len() > 0,
{
    let v = chars_of(text);
    let n = chars_of(sep);
    let mut out: Vec<Vec<char>> = Vec::new();
    let mut pos: usize = 0;
    assert(char_lists(out@) =~= Seq::empty());
    loop
        invariant
            v@ == text@,
            n@ == sep@,
            sep@.len() > 0,
            pos <= v@.len(),
            char_lists(out@) + split_from(v@, pos as int, sep@) == split_from(v@, 0, sep@),
        decreases v@.len() - pos,
    {
        let ghost before = char_lists(out@);
        match find_chars(&v, pos, &n) {
            Some(i) => {
                proof {
                    find_from_is_first(v@, pos as int, sep@);
                }
                let total: usize = v.len();
                assert(i + n@.len() <= total);
                let piece = sub_chars(&v, pos, i);
                let ghost rest = split_from(v@, i + sep@.len(), sep@);
                out.push(piece);
                proof {
                    assert(char_lists(out@) =~= before.push(piece@));
                    assert(before.push(piece@) + rest =~= before + (seq![piece@] + rest));
                }
                pos = i + n.len();
            },
            None => {
                let piece = sub_chars(&v, pos, v.len());
                assert(piece@ =~= v@.skip(pos as int));
                out.push(piece);
                proof {
                    assert(char_lists(out@) =~= before.push(piece@));
                    assert(before.push(piece@) =~= before + seq![piece@]);
                }
                return out;
            },
        }
    }
}

/// Pieces put behind what is split already: where `y` holds no separator, the
/// text `x` followed by the separator and `y` splits into the pieces of `x` and
/// then `y`.
proof fn lemma_split_behind(x: Seq<char>, y: Seq<char>, c: char, pos: int)
    requires
        0 <= pos <= x.len(),
        !y.contains(c),
    ensures
        split_from(x + seq![c] + y, pos, seq![c]) == split_from(x, pos, seq![c]).push(y),
    decreases x.len() - pos,
{
    let sep = seq![c];
    let full = x + sep + y;
    find_from_is_first(x, pos, sep);
    find_from_is_first(full, pos, sep);
    assert(forall|i: int| 0 <= i < full.len() ==> #[trigger] full.subrange(i, i + 1)[0] == full[i]);
    assert(forall|i: int| 0 <= i < x.len() ==> #[trigger] x.subrange(i, i + 1)[0] == x[i]);
    match find_from(x, pos, sep) {
        Some(i) => {
            assert(x.subrange(i, i + 1)[0] == c);
            assert(full[i] == c);
            assert(full.subrange(i, i + 1) =~= sep);
            assert(occurs_at(full, sep, i));
            let j = find_from(full, pos, sep).unwrap();
            assert(j <= i);
            if j < i {
                assert(full.subrange(j, j + 1)[0] == c);
                assert(x.subrange(j, j + 1) =~= sep);
                assert(occurs_at(x, sep, j));
            }
            lemma_split_behind(x, y, c, i + 1);
            assert(full.subrange(pos, i) =~= x.subrange(pos, i));
            assert(seq![x.subrange(pos, i)] + split_from(x, i + 1, sep).push(y) =~= (seq![
                x.subrange(pos, i),
            ] + split_from(x, i + 1, sep)).push(y));
        },
        None => {
            let n = x.len() as int;
            assert(full.subrange(n, n + 1) =~= sep);
            assert(occurs_at(full, sep, n));
            let j = find_from(full, pos, sep).unwrap();
            if j < n {
                assert(full.subrange(j, j + 1)[0] == c);
                assert(x.subrange(j, j + 1) =~= sep);
                assert(occurs_at(x, sep, j));
            }
            assert(j == n);
            find_from_is_first(full, n + 1, sep);
            if let Some(k) = find_from(full, n + 1, sep) {
                assert(full.subrange(k, k + 1)[0] == c);
                assert(y[k - n - 1] == c);
            }
            assert(full.skip(n + 1) =~= y);
            assert(full.subrange(pos, n) =~= x.skip(pos));
            assert(split_from(full, n + 1, sep) =~= seq![y]);
            assert(seq![x.skip(pos)] + seq![y] =~= seq![x.skip(pos)].push(y));
        },
    }
}

/// Splitting undoes joining, where no part holds the separator.
pub proof fn split_undoes_join(parts: Seq<Seq<char>>, c: char)
    requires
        parts.len() > 0,
        forall|i: int| 0 <= i < parts.len() ==> !(#[trigger] parts[i]).contains(c),
    ensures
        split_from(joined(parts, seq![c]), 0, seq![c]) == parts,
    decreases parts.len(),
{
    let sep = seq![c];
    if parts.len() == 1 {
        let s = parts[0];
        find_from_is_first(s, 0, sep);
        if let Some(k) = find_from(s, 0, sep) {
            assert(s.subrange(k, k + 1)[0] == c);
            assert(s[k] == c);
        }
        assert(s.skip(0) =~= s);
        assert(parts =~= seq![s]);
    } else {
        let before = parts.drop_last();
        split_undoes_join(before, c);
        lemma_split_behind(joined(before, sep), parts.last(), c, 0);
        assert(before.push(parts.last()) =~= parts);
    }
}

/// Joined parts stand in their order with one separator between each two, and
/// nothing before or behind them.
pub proof fn parts_are_joined_in_order(
    x: Seq<Seq<char>>,
    y: Seq<Seq<char>>,
    part: Seq<char>,
    sep: Seq<char>,
)
    ensures
        joined(Seq::empty(), sep) == Seq::<char>::empty(),
        joined(seq![part], sep) == part,
        x.len() > 0 && y.len() > 0 ==> joined(x + y, sep) == joined(x, sep) + sep + joined(y, sep),
    decreases y.len(),
{
    if x.len() > 0 && y.len() > 0 {
        let all = x + y;
        assert(all.drop_last() =~= x + y.drop_last());
        assert(all.last() == y.last());
        if y.len() == 1 {
            assert(y.drop_last() =~= Seq::empty());
            assert(x + y.drop_last() =~= x);
        } else {
            parts_are_joined_in_order(x, y.drop_last(), part, sep);
            assert(joined(all, sep) =~= joined(x, sep) + sep + joined(y, sep));
        }
    }
}

/// Trimming takes white space off both ends and nothing else: what is left
/// neither begins nor ends with white space, and only white space was around it.
pub proof fn trimming_takes_only_space(s: Seq<char>)
    ensures
        trimmed(s).len() > 0 ==> !is_space(trimmed(s)[0]) && !is_space(trimmed(s).last()),
        trimmed_start(s).len() > 0 ==> !is_space(trimmed_start(s)[0]),
        trimmed_end(s).len() > 0 ==> !is_space(trimmed_end(s).last()),
        ({
            let n = s.len() - trimmed_start(s).len();
            &&& 0 <= n
            &&& trimmed_start(s) == s.skip(n)
            &&& forall|i: int| 0 <= i < n ==> is_space(#[trigger] s[i])
        }),
        ({
            let n = trimmed_end(s).len() as int;
            &&& n <= s.len()
            &&& trimmed_end(s) == s.take(n)
            &&& forall|i: int| n <= i < s.len() ==> is_space(#[trigger] s[i])
        }),
        trimmed(s) == trimmed_end(trimmed_start(s)),
{
    lemma_trimmed_start(s);
    lemma_trimmed_end(s);
    let t = trimmed_start(s);
    lemma_trimmed_end(t);
    if trimmed(s).len() > 0 {
        assert(trimmed(s)[0] == t[0]);
    }
}

proof fn lemma_trimmed_start(s: Seq<char>)
    ensures
        trimmed_start(s).len() > 0 ==> !is_space(trimmed_start(s)[0]),
        trimmed_start(s).len() <= s.len(),
        trimmed_start(s) == s.skip(s.len() - trimmed_start(s).len()),
        forall|i: int| 0 <= i < s.len() - trimmed_start(s).len() ==> is_space(#[trigger] s[i]),
    decreases s.len(),
{
    if s.len() > 0 && is_space(s[0]) {
        let rest = s.subrange(1, s.len() as int);
        lemma_trimmed_start(rest);
        let n = rest.len() - trimmed_start(rest).len();
        assert(rest.skip(n) =~= s.skip(n + 1));
        assert forall|i: int| 0 <= i < n + 1 implies is_space(#[trigger] s[i]) by {
            if i > 0 {
                assert(s[i] == rest[i - 1]);
            }
        }
    } else {
        assert(s.skip(0) =~= s);
    }
}

proof fn lemma_trimmed_end(s: Seq<char>)
    ensures
        trimmed_end(s).len() > 0 ==> !is_space(trimmed_end(s).last()),
        trimmed_end(s).len() <= s.len(),
        trimmed_end(s) == s.take(trimmed_end(s).len() as int),
        forall|i: int| trimmed_end(s).len() <= i < s.len() ==> is_space(#[trigger] s[i]),
    decreases s.len(),
{
    if s.len() > 0 && is_space(s.last()) {
        let rest = s.drop_last();
        lemma_trimmed_end(rest);
        let n = trimmed_end(rest).len() as int;
        assert(rest.take(n) =~= s.take(n));
        assert forall|i: int| n <= i < s.len() implies is_space(#[trigger] s[i]) by {
            if i < s.len() - 1 {
                assert(s[i] == rest[i]);
            }
        }
    } else {
        assert(s.take(s.len() as int) =~= s);
    }
}

/// Text with nothing but white space around it is trimmed to that text.
pub proof fn space_around_text_is_taken_off(a: Seq<char>, m: Seq<char>, b: Seq<char>)
    requires
        forall|i: int| 0 <= i < a.len() ==> is_space(#[trigger] a[i]),
        forall|i: int| 0 <= i < b.len() ==> is_space(#[trigger] b[i]),
        m.len() > 0 ==> !is_space(m[0]) && !is_space(m.last()),
    ensures
        trimmed(a + m + b) == m,
{
    let s = a + m + b;
    lemma_trimmed_start(s);
    let t = trimmed_start(s);
    lemma_trimmed_end(t);
    let n = s.len() - t.len();
    if m.len() == 0 {
        assert forall|i: int| 0 <= i < s.len() implies is_space(#[trigger] s[i]) by {
            if i < a.len() {
                assert(s[i] == a[i]);
            } else {
                assert(s[i] == b[i - a.len()]);
            }
        }
        if t.len() > 0 {
            assert(t[0] == s[n]);
        }
        assert(trimmed(s) =~= m);
    } else {
        assert(s[a.len() as int] == m[0]);
        assert(n <= a.len());
        if n < a.len() {
            assert(t[0] == s[n]);
            assert(s[n] == a[n]);
        }
        assert(t =~= m + b);
        let k = trimmed_end(t).len() as int;
        assert(t[m.len() - 1] == m.last());
        assert(k >= m.len());
        if k > m.len() {
            assert(trimmed_end(t).last() == t[k - 1]);
            assert(t[k - 1] == b[k - 1 - m.len()]);
        }
        assert(trimmed(s) =~= m);
    }
}

/// The characters that are white space: those from the tab to the carriage
/// return and the blank, and no other of the basic ones.
pub proof fn basic_white_space(c: char)
    requires
        (c as u32) < 0x80,
    ensures
        is_space(c) <==> c == ' ' || c == '\t' || c == '\n' || c == '\r' || c as u32 == 0xb || c
            as u32 == 0xc,
{
}

/// Of the characters beyond the basic ones, these are white space: the next line,
/// the no-break blanks, the blanks of fixed width, the ends of a line and of a
/// paragraph, and the blanks of mathematics and of ideographs.
pub proof fn wider_white_space(c: char)
    requires
        0x80 <= c as u32,
    ensures
        is_space(c) <==> c == '\u{85}' || c == '\u{a0}' || c == '\u{1680}' || '\u{2000}' as u32 <= c
            as u32 <= '\u{200a}' as u32 || c == '\u{2028}' || c == '\u{2029}' || c == '\u{202f}' || c
            == '\u{205f}' || c == '\u{3000}',
{
}

/// Text begins with its first part and ends with its last, and what it begins or
/// ends with is the part that stands there.
pub proof fn text_begins_and_ends_with_its_parts(a: Seq<char>, b: Seq<char>, h: Seq<char>)
    ensures
        begins_with(a + b, a),
        finishes_with(a + b, b),
        begins_with(h, a) <==> h.len() >= a.len() && h.take(a.len() as int) == a,
        finishes_with(h, a) <==> h.len() >= a.len() && h.skip(h.len() - a.len()) == a,
{
    let s = a + b;
    assert(s.subrange(0, a.len() as int) =~= a);
    assert(s.subrange(s.len() - b.len(), s.len() as int) =~= b);
    if h.len() >= a.len() {
        assert(h.subrange(0, a.len() as int) =~= h.take(a.len() as int));
        assert(h.subrange(h.len() - a.len(), h.len() as int) =~= h.skip(h.len() - a.len()));
    }
}

/// Digits follow one another as they do among the characters, and what writes a
/// digit has its value.
pub proof fn digits_are_in_their_order(d: nat)
    requires
        d < 10,
    ensures
        digit(d) as int == '0' as int + d,
        digit_value(digit(d)) == Some(d),
{
}

/// A number may have a plus before it, and it has nothing in it but digits, at
/// least one.
pub proof fn only_digits_make_a_number(n: u64, s: Seq<char>, i: int)
    ensures
        number(seq!['+'] + decimal(n as nat)) == Some(n),
        number(Seq::empty()) is None,
        number(seq!['+']) is None,
        0 < i < s.len() && digit_value(s[i]) is None ==> number(s) is None,
        s.len() > 0 && s[0] != '+' && digit_value(s[0]) is None ==> number(s) is None,
{
    reading_undoes_writing(n);
    let d = decimal(n as nat);
    let p = seq!['+'] + d;
    assert(p.skip(1) =~= d);
    assert(seq!['+'].skip(1) =~= Seq::empty());
    lemma_first_digit(n as nat);
    if 0 < i < s.len() && digit_value(s[i]) is None {
        lemma_no_digit(s, i);
        if s[0] == '+' {
            assert(s.skip(1)[i - 1] == s[i]);
            lemma_no_digit(s.skip(1), i - 1);
        }
    }
    if s.len() > 0 && s[0] != '+' && digit_value(s[0]) is None {
        lemma_no_digit(s, 0);
    }
}

proof fn lemma_first_digit(n: nat)
    ensures
        decimal(n).len() > 0,
        digit_value(decimal(n)[0]) is Some,
        decimal(n)[0] != '+',
    decreases n,
{
    if n >= 10 {
        lemma_first_digit(n / 10);
        assert(decimal(n)[0] == decimal(n / 10)[0]);
    }
}

proof fn lemma_no_digit(s: Seq<char>, i: int)
    requires
        0 <= i < s.len(),
        digit_value(s[i]) is None,
    ensures
        digits_value(s) is None,
    decreases s.len(),
{
    if i < s.len() - 1 {
        lemma_no_digit(s.drop_last(), i);
    }
}

/// At most `n` characters are taken, from the front, and all of them where there
/// are no more.
pub proof fn the_front_is_taken(s: Seq<char>, n: nat)
    ensures
        s.len() <= n ==> at_most(s, n) == s,
        s.len() > n ==> at_most(s, n) == s.take(n as int),
{
}

} // verus!
