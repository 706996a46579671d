//! Character-level helpers over `&str`, `String` and `Vec<char>`.

use vstd::prelude::*;

verus! {

/// Unicode `White_Space` characters, the set that `char::is_whitespace` tests.
pub open spec fn is_white_space(c: char) -> bool {
    let n = c as u32;
    ||| (0x09 <= n && n <= 0x0d)
    ||| n == 0x20
    ||| n == 0x85
    ||| n == 0xa0
    ||| n == 0x1680
    ||| (0x2000 <= n && n <= 0x200a)
    ||| n == 0x2028
    ||| n == 0x2029
    ||| n == 0x202f
    ||| n == 0x205f
    ||| n == 0x3000
}

pub fn is_white_space_char(c: char) -> (b: bool)
    ensures
        b == is_white_space(c),
{
    let n = c as u32;
    (0x09 <= n && n <= 0x0d) || n == 0x20 || n == 0x85 || n == 0xa0 || n == 0x1680 || (0x2000
        <= n && n <= 0x200a) || n == 0x2028 || n == 0x2029 || n == 0x202f || n == 0x205f || n
        == 0x3000
}

/// Appends one character to a `String` (`String::push`).
#[verifier::external_body]
pub(crate) fn push_char(s: &mut String, c: char)
    ensures
        final(s)@ == old(s)@.push(c),
{
    s.push(c);
}

/// The characters of a string slice, in order.
pub fn chars_of(s: &str) -> (r: Vec<char>)
    ensures
        r@ == s@,
{
    let mut v: Vec<char> = Vec::new();
    for c in it: s.chars()
        invariant
            v@ == it.seq().take(it.index() as int),
    {
        v.push(c);
    }
    v
}

} // verus!

verus! {

/// Builds a `String` from a sequence of characters.
pub fn string_of(v: &[char]) -> (r: String)
    ensures
        r@ == v@,
{
    let mut s = String::new();
    let mut i: usize = 0;
    while i < v.len()
        invariant
            i <= v.len(),
            s@ == v@.take(i as int),
        decreases v.len() - i,
    {
        push_char(&mut s, v[i]);
        i += 1;
        assert(v@.take(i as int) == v@.take((i - 1) as int).push(v@[i - 1]));
    }
    assert(v@.take(v.len() as int) == v@);
    s
}

/// The index of the first non-white-space character, or the length.
pub open spec fn trim_start_index(s: Seq<char>) -> int
    decreases s.len(),
{
    if s.len() > 0 && is_white_space(s[0]) {
        1 + trim_start_index(s.drop_first())
    } else {
        0
    }
}

/// One past the index of the last non-white-space character, or 0.
pub open spec fn trim_end_index(s: Seq<char>) -> int
    decreases s.len(),
{
    if s.len() > 0 && is_white_space(s.last()) {
        trim_end_index(s.drop_last())
    } else {
        s.len() as int
    }
}

/// `s` without leading white space (`str::trim_start`).
pub open spec fn trim_start(s: Seq<char>) -> Seq<char> {
    s.subrange(trim_start_index(s), s.len() as int)
}

/// `s` without trailing white space (`str::trim_end`).
pub open spec fn trim_end(s: Seq<char>) -> Seq<char> {
    s.take(trim_end_index(s))
}

/// `s` without leading or trailing white space (`str::trim`).
pub open spec fn trim(s: Seq<char>) -> Seq<char> {
    trim_end(trim_start(s))
}

pub proof fn lemma_trim_start_index(s: Seq<char>)
    ensures
        0 <= trim_start_index(s) <= s.len(),
        forall|i: int| 0 <= i < trim_start_index(s) ==> is_white_space(#[trigger] s[i]),
        trim_start_index(s) < s.len() ==> !is_white_space(s[trim_start_index(s)]),
    decreases s.len(),
{
    if s.len() > 0 && is_white_space(s[0]) {
        lemma_trim_start_index(s.drop_first());
        assert forall|i: int| 0 <= i < trim_start_index(s) implies is_white_space(#[trigger] s[i]) by {
            if i > 0 {
                assert(s[i] == s.drop_first()[i - 1]);
            }
        }
    }
}

pub proof fn lemma_trim_end_index(s: Seq<char>)
    ensures
        0 <= trim_end_index(s) <= s.len(),
        forall|i: int| trim_end_index(s) <= i < s.len() ==> is_white_space(#[trigger] s[i]),
        trim_end_index(s) > 0 ==> !is_white_space(s[trim_end_index(s) - 1]),
    decreases s.len(),
{
    if s.len() > 0 && is_white_space(s.last()) {
        lemma_trim_end_index(s.drop_last());
        assert forall|i: int| trim_end_index(s) <= i < s.len() implies is_white_space(#[trigger] s[i]) by {
            if i < s.len() - 1 {
                assert(s[i] == s.drop_last()[i]);
            }
        }
    }
}

/// Characterizes the start index by its defining properties.
pub proof fn lemma_trim_start_unique(s: Seq<char>, k: int)
    requires
        0 <= k <= s.len(),
        forall|i: int| 0 <= i < k ==> is_white_space(#[trigger] s[i]),
        k < s.len() ==> !is_white_space(s[k]),
    ensures
        trim_start_index(s) == k,
    decreases s.len(),
{
    if k > 0 {
        assert(is_white_space(s[0]));
        assert forall|i: int| 0 <= i < k - 1 implies is_white_space(#[trigger] s.drop_first()[i]) by {
            assert(s.drop_first()[i] == s[i + 1]);
        }
        if k - 1 < s.len() - 1 {
            assert(s.drop_first()[k - 1] == s[k]);
        }
        lemma_trim_start_unique(s.drop_first(), k - 1);
    } else if s.len() > 0 {
        assert(!is_white_space(s[0]));
    }
}

/// Characterizes the end index by its defining properties.
pub proof fn lemma_trim_end_unique(s: Seq<char>, k: int)
    requires
        0 <= k <= s.len(),
        forall|i: int| k <= i < s.len() ==> is_white_space(#[trigger] s[i]),
        k > 0 ==> !is_white_space(s[k - 1]),
    ensures
        trim_end_index(s) == k,
    decreases s.len(),
{
    if k < s.len() {
        assert(is_white_space(s[s.len() - 1]));
        assert forall|i: int| k <= i < s.len() - 1 implies is_white_space(#[trigger] s.drop_last()[i]) by {
            assert(s.drop_last()[i] == s[i]);
        }
        if k > 0 {
            assert(s.drop_last()[k - 1] == s[k - 1]);
        }
        lemma_trim_end_unique(s.drop_last(), k);
    }
}

/// The bounds `(start, end)` of `trim(v@)` inside `v`.
pub fn trim_bounds(v: &[char], from: usize, to: usize) -> (r: (usize, usize))
    requires
        from <= to <= v@.len(),
    ensures
        from <= r.0 <= r.1 <= to,
        v@.subrange(r.0 as int, r.1 as int) == trim(v@.subrange(from as int, to as int)),
{
    let ghost s = v@.subrange(from as int, to as int);
    let mut a = from;
    while a < to && is_white_space_char(v[a])
        invariant
            from <= a <= to <= v@.len(),
            s == v@.subrange(from as int, to as int),
            forall|i: int| 0 <= i < a - from ==> is_white_space(#[trigger] s[i]),
        decreases to - a,
    {
        a += 1;
    }
    proof {
        lemma_trim_start_unique(s, a - from);
    }
    let ghost t = trim_start(s);
    assert(t == v@.subrange(a as int, to as int));
    let mut b = to;
    while b > a && is_white_space_char(v[b - 1])
        invariant
            a <= b <= to <= v@.len(),
            t == v@.subrange(a as int, to as int),
            forall|i: int| b - a <= i < t.len() ==> is_white_space(#[trigger] t[i]),
        decreases b - a,
    {
        b -= 1;
    }
    proof {
        lemma_trim_end_unique(t, b - a);
    }
    assert(v@.subrange(a as int, b as int) == t.take(b - a));
    (a, b)
}

} // verus!

verus! {

/// The decimal digits of `n`, most significant first, without leading zeros.
pub open spec fn decimal(n: nat) -> Seq<char>
    decreases n,
{
    if n < 10 {
        seq![digit_char(n)]
    } else {
        decimal(n / 10).push(digit_char(n % 10))
    }
}

pub open spec fn digit_char(d: nat) -> char {
    if d == 0 { '0' } else if d == 1 { '1' } else if d == 2 { '2' } else if d == 3 { '3' }
    else if d == 4 { '4' } else if d == 5 { '5' } else if d == 6 { '6' } else if d == 7 { '7' }
    else if d == 8 { '8' } else { '9' }
}

fn digit(d: u64) -> (c: char)
    requires
        d < 10,
    ensures
        c == digit_char(d as nat),
{
    if d == 0 { '0' } else if d == 1 { '1' } else if d == 2 { '2' } else if d == 3 { '3' }
    else if d == 4 { '4' } else if d == 5 { '5' } else if d == 6 { '6' } else if d == 7 { '7' }
    else if d == 8 { '8' } else { '9' }
}

/// `n` written in decimal.
pub fn decimal_string(n: u64) -> (s: String)
    ensures
        s@ == decimal(n as nat),
    decreases n,
{
    if n < 10 {
        let mut s = String::new();
        push_char(&mut s, digit(n));
        s
    } else {
        let mut s = decimal_string(n / 10);
        push_char(&mut s, digit(n % 10));
        s
    }
}

} // verus!

verus! {

/// An owned copy of a string slice.
pub fn owned(s: &str) -> (r: String)
    ensures
        r@ == s@,
{
    <String as vstd::string::StringExecFns>::from_str(s)
}

} // verus!

verus! {

/// Whether two texts are equal, character by character.
pub fn same_text(a: &str, b: &str) -> (r: bool)
    ensures
        r == (a@ == b@),
{
    let x = chars_of(a);
    let y = chars_of(b);
    if x.len() != y.len() {
        return false;
    }
    let mut i: usize = 0;
    while i < x.len()
        invariant
            x@ == a@,
            y@ == b@,
            x@.len() == y@.len(),
            i <= x@.len(),
            forall|j: int| 0 <= j < i ==> x@[j] == y@[j],
        decreases x.len() - i,
    {
        if x[i] != y[i] {
            return false;
        }
        i += 1;
    }
    assert(x@ =~= y@);
    true
}

} // verus!

verus! {

/// The characters of `v` from `from` up to `to`, as a `String`.
pub fn string_of_range(v: &Vec<char>, from: usize, to: usize) -> (r: String)
    requires
        from <= to <= v@.len(),
    ensures
        r@ == v@.subrange(from as int, to as int),
{
    let mut s = String::new();
    let mut i: usize = from;
    while i < to
        invariant
            from <= i <= to <= v@.len(),
            s@ == v@.subrange(from as int, i as int),
        decreases to - i,
    {
        push_char(&mut s, v[i]);
        i += 1;
        assert(v@.subrange(from as int, i as int) == v@.subrange(from as int, i - 1).push(v@[i - 1]));
    }
    s
}

/// `s` without leading or trailing white space, as a `String` (`str::trim`).
pub fn trimmed(s: &str) -> (r: String)
    ensures
        r@ == trim(s@),
{
    let v = chars_of(s);
    let (a, b) = trim_bounds(v.as_slice(), 0, v.len());
    assert(v@.subrange(0, v@.len() as int) == v@);
    string_of_range(&v, a, b)
}

/// The first position of `c` in `s`, or -1.
pub open spec fn char_position(s: Seq<char>, c: char) -> int
    decreases s.len(),
{
    if s.len() == 0 {
        -1
    } else if s[0] == c {
        0
    } else {
        let p = char_position(s.drop_first(), c);
        if p < 0 { -1 } else { p + 1 }
    }
}

pub proof fn lemma_char_position_is(s: Seq<char>, c: char, i: int)
    requires
        -1 <= i < s.len(),
        i >= 0 ==> s[i] == c,
        i < 0 ==> forall|j: int| 0 <= j < s.len() ==> #[trigger] s[j] != c,
        forall|j: int| 0 <= j < i ==> #[trigger] s[j] != c,
    ensures
        char_position(s, c) == i,
    decreases s.len(),
{
    if s.len() > 0 && s[0] != c {
        assert forall|j: int| 0 <= j < s.len() - 1 implies #[trigger] s.drop_first()[j] == s[j + 1] by {}
        if i >= 0 {
            assert(s.drop_first()[i - 1] == c);
            assert forall|j: int| 0 <= j < i - 1 implies #[trigger] s.drop_first()[j] != c by {
                assert(s[j + 1] != c);
            }
            lemma_char_position_is(s.drop_first(), c, i - 1);
        } else {
            assert forall|j: int| 0 <= j < s.len() - 1 implies #[trigger] s.drop_first()[j] != c by {
                assert(s[j + 1] != c);
            }
            lemma_char_position_is(s.drop_first(), c, -1);
        }
    }
}

/// `str::splitn(2, c)`: the text before the first `c`, and the text after it if there
/// is one.
pub open spec fn split_once(s: Seq<char>, c: char) -> (Seq<char>, Option<Seq<char>>) {
    let i = char_position(s, c);
    if i < 0 {
        (s, None)
    } else {
        (s.take(i), Some(s.skip(i + 1)))
    }
}

pub open spec fn opt_string_view(o: Option<String>) -> Option<Seq<char>> {
    match o {
        Some(s) => Some(s@),
        None => None,
    }
}

/// Splits `s` at its first `c`.
pub fn split_once_at(s: &str, c: char) -> (r: (String, Option<String>))
    ensures
        (r.0@, opt_string_view(r.1)) == split_once(s@, c),
{
    let v = chars_of(s);
    let mut i: usize = 0;
    while i < v.len()
        invariant
            v@ == s@,
            i <= v@.len(),
            forall|j: int| 0 <= j < i ==> #[trigger] v@[j] != c,
        decreases v.len() - i,
    {
        if v[i] == c {
            proof {
                lemma_char_position_is(s@, c, i as int);
            }
            let before = string_of_range(&v, 0, i);
            let after = string_of_range(&v, i + 1, v.len());
            assert(v@.subrange(0, i as int) == s@.take(i as int));
            assert(v@.subrange(i + 1, v@.len() as int) == s@.skip(i + 1));
            return (before, Some(after));
        }
        i += 1;
    }
    proof {
        lemma_char_position_is(s@, c, -1);
    }
    (owned(s), None)
}

/// The first position of the two characters `->` in `s`, or -1.
pub open spec fn arrow_position(s: Seq<char>) -> int
    decreases s.len(),
{
    if s.len() < 2 {
        -1
    } else if s[0] == '-' && s[1] == '>' {
        0
    } else {
        let p = arrow_position(s.drop_first());
        if p < 0 { -1 } else { p + 1 }
    }
}

pub open spec fn arrow_at(s: Seq<char>, i: int) -> bool {
    0 <= i && i + 1 < s.len() && s[i] == '-' && s[i + 1] == '>'
}

pub proof fn lemma_arrow_position_is(s: Seq<char>, i: int)
    requires
        -1 <= i,
        i >= 0 ==> arrow_at(s, i),
        i < 0 ==> forall|j: int| !#[trigger] arrow_at(s, j),
        forall|j: int| 0 <= j < i ==> !#[trigger] arrow_at(s, j),
    ensures
        arrow_position(s) == i,
    decreases s.len(),
{
    if s.len() >= 2 && !(s[0] == '-' && s[1] == '>') {
        assert(!arrow_at(s, 0));
        let t = s.drop_first();
        assert forall|j: int| #[trigger] arrow_at(t, j) == arrow_at(s, j + 1) by {}
        if i >= 0 {
            assert(arrow_at(t, i - 1));
            assert forall|j: int| 0 <= j < i - 1 implies !#[trigger] arrow_at(t, j) by {
                assert(!arrow_at(s, j + 1));
            }
            lemma_arrow_position_is(t, i - 1);
        } else {
            assert forall|j: int| !#[trigger] arrow_at(t, j) by {
                assert(!arrow_at(s, j + 1));
            }
            lemma_arrow_position_is(t, -1);
        }
    } else if s.len() < 2 {
        if i >= 0 {
            assert(arrow_at(s, i));
        }
    } else {
        assert(arrow_at(s, 0));
        if i > 0 {
            assert(!arrow_at(s, 0));
        }
    }
}

/// `str::splitn(2, "->")`: the text before the first `->`, and the text after it if
/// there is one.
pub open spec fn split_arrow(s: Seq<char>) -> (Seq<char>, Option<Seq<char>>) {
    let i = arrow_position(s);
    if i < 0 {
        (s, None)
    } else {
        (s.take(i), Some(s.skip(i + 2)))
    }
}

/// Splits `s` at its first `->`.
pub fn split_arrow_at(s: &str) -> (r: (String, Option<String>))
    ensures
        (r.0@, opt_string_view(r.1)) == split_arrow(s@),
{
    let v = chars_of(s);
    let mut i: usize = 0;
    while i < v.len()
        invariant
            v@ == s@,
            i <= v@.len(),
            forall|j: int| 0 <= j < i ==> !#[trigger] arrow_at(s@, j),
        decreases v.len() - i,
    {
        if i + 1 < v.len() && v[i] == '-' && v[i + 1] == '>' {
            proof {
                lemma_arrow_position_is(s@, i as int);
            }
            let before = string_of_range(&v, 0, i);
            let after = string_of_range(&v, i + 2, v.len());
            assert(v@.subrange(0, i as int) == s@.take(i as int));
            assert(v@.subrange(i + 2, v@.len() as int) == s@.skip(i + 2));
            return (before, Some(after));
        }
        i += 1;
    }
    proof {
        assert forall|j: int| !#[trigger] arrow_at(s@, j) by {
            if 0 <= j && j < i {
            } else if j >= i {
                assert(!(j + 1 < s@.len()));
            }
        }
        lemma_arrow_position_is(s@, -1);
    }
    (owned(s), None)
}

/// `str::split(c)`: every piece between occurrences of `c`, empty ones included.
pub open spec fn pieces(s: Seq<char>, c: char) -> Seq<Seq<char>>
    decreases s.len(),
{
    if s.len() == 0 {
        seq![Seq::<char>::empty()]
    } else {
        let p = pieces(s.drop_last(), c);
        if s.last() == c {
            p.push(Seq::<char>::empty())
        } else {
            p.update(p.len() - 1, p.last().push(s.last()))
        }
    }
}

pub proof fn lemma_pieces_len(s: Seq<char>, c: char)
    ensures
        pieces(s, c).len() >= 1,
    decreases s.len(),
{
    if s.len() > 0 {
        lemma_pieces_len(s.drop_last(), c);
    }
}

/// The trimmed pieces that are not empty, in order.
pub open spec fn trimmed_nonempty(ps: Seq<Seq<char>>) -> Seq<Seq<char>>
    decreases ps.len(),
{
    if ps.len() == 0 {
        Seq::empty()
    } else {
        let r = trimmed_nonempty(ps.drop_last());
        let t = trim(ps.last());
        if t.len() > 0 { r.push(t) } else { r }
    }
}

/// The entries of a comma separated list: each piece trimmed, empty ones dropped.
pub open spec fn list_entries(s: Seq<char>) -> Seq<Seq<char>> {
    trimmed_nonempty(pieces(s, ','))
}

pub open spec fn texts_view(v: Seq<String>) -> Seq<Seq<char>> {
    v.map_values(|s: String| s@)
}

/// The pieces of `s` between occurrences of `c`.
pub fn pieces_of(s: &str, c: char) -> (r: Vec<String>)
    ensures
        texts_view(r@) == pieces(s@, c),
{
    let v = chars_of(s);
    let mut out: Vec<String> = Vec::new();
    let mut start: usize = 0;
    let mut i: usize = 0;
    assert(s@.take(0) =~= Seq::<char>::empty());
    assert(texts_view(out@).push(v@.subrange(0, 0)) =~= seq![Seq::<char>::empty()]);
    while i < v.len()
        invariant
            v@ == s@,
            start <= i <= v@.len(),
            texts_view(out@).push(v@.subrange(start as int, i as int)) == pieces(s@.take(i as int), c),
        decreases v.len() - i,
    {
        let ghost before = s@.take(i as int);
        assert(s@.take(i + 1).drop_last() == before);
        assert(s@.take(i + 1).last() == v@[i as int]);
        proof {
            lemma_pieces_len(before, c);
        }
        if v[i] == c {
            let piece = string_of_range(&v, start, i);
            out.push(piece);
            start = i + 1;
            assert(texts_view(out@) == texts_view(out@).drop_last().push(piece@));
            assert(v@.subrange(start as int, i + 1) =~= Seq::<char>::empty());
        } else {
            assert(v@.subrange(start as int, i + 1) == v@.subrange(start as int, i as int).push(v@[i as int]));
        }
        i += 1;
        assert(texts_view(out@).push(v@.subrange(start as int, i as int)) =~= pieces(s@.take(i as int), c));
    }
    let last = string_of_range(&v, start, v.len());
    out.push(last);
    assert(s@.take(v@.len() as int) == s@);
    assert(texts_view(out@) =~= pieces(s@, c));
    out
}

/// The entries of the comma separated list `s`.
pub fn list_values(s: &str) -> (r: Vec<String>)
    ensures
        texts_view(r@) == list_entries(s@),
{
    let ps = pieces_of(s, ',');
    let ghost p = texts_view(ps@);
    let mut out: Vec<String> = Vec::new();
    let mut i: usize = 0;
    while i < ps.len()
        invariant
            p == texts_view(ps@),
            i <= ps@.len(),
            texts_view(out@) == trimmed_nonempty(p.take(i as int)),
        decreases ps.len() - i,
    {
        assert(p.take(i + 1).drop_last() == p.take(i as int));
        assert(p.take(i + 1).last() == ps@[i as int]@);
        let t = trimmed(ps[i].as_str());
        if !t.as_str().is_empty() {
            out.push(t);
            assert(texts_view(out@) =~= texts_view(out@).drop_last().push(t@));
        }
        i += 1;
    }
    assert(p.take(ps@.len() as int) == p);
    out
}

} // verus!
