//! Text primitives the rest of the library is built from, each with a
//! specification over the character sequence of its arguments.
use vstd::prelude::*;

verus! {

// ---------------------------------------------------------------------------
// Specifications
// ---------------------------------------------------------------------------

/// `p` occurs in `s` starting at position `i`.
pub open spec fn occurs_at(s: Seq<char>, p: Seq<char>, i: int) -> bool {
    &&& 0 <= i
    &&& i + p.len() <= s.len()
    &&& s.subrange(i, i + p.len()) == p
}

/// `p` occurs somewhere in `s` (what `str::contains` answers for a string pattern).
pub open spec fn contains_seq(s: Seq<char>, p: Seq<char>) -> bool {
    exists|i: int| occurs_at(s, p, i)
}

/// `s` begins with `p` (what `str::starts_with` answers).
pub open spec fn has_prefix(s: Seq<char>, p: Seq<char>) -> bool {
    occurs_at(s, p, 0)
}

/// Every non-overlapping occurrence of `from` in `s`, scanned from the left,
/// replaced by `to` (what `str::replace` computes for a non-empty pattern).
pub open spec fn replaced(s: Seq<char>, from: Seq<char>, to: Seq<char>) -> Seq<char>
    decreases s.len(),
{
    if s.len() == 0 {
        s
    } else if from.len() > 0 && from.len() <= s.len() && s.subrange(0, from.len() as int) == from {
        to + replaced(s.subrange(from.len() as int, s.len() as int), from, to)
    } else {
        seq![s[0]] + replaced(s.drop_first(), from, to)
    }
}

/// `s` without its leading characters that belong to `set`.
pub open spec fn strip_leading(s: Seq<char>, set: Seq<char>) -> Seq<char>
    decreases s.len(),
{
    if s.len() > 0 && set.contains(s[0]) {
        strip_leading(s.drop_first(), set)
    } else {
        s
    }
}

/// `s` without its trailing characters that belong to `set`.
pub open spec fn strip_trailing(s: Seq<char>, set: Seq<char>) -> Seq<char>
    decreases s.len(),
{
    if s.len() > 0 && set.contains(s.last()) {
        strip_trailing(s.drop_last(), set)
    } else {
        s
    }
}

/// `s` with the characters of `set` removed from both ends (what
/// `str::trim_matches` computes with a predicate that tests membership in `set`).
pub open spec fn trimmed(s: Seq<char>, set: Seq<char>) -> Seq<char> {
    strip_trailing(strip_leading(s, set), set)
}

/// The characters with the Unicode property `White_Space`: those that
/// `char::is_whitespace` accepts and `str::trim` removes.
pub open spec fn is_white_space(c: char) -> bool {
    let u = c as u32;
    ||| 0x09 <= u <= 0x0D
    ||| u == 0x20
    ||| u == 0x85
    ||| u == 0xA0
    ||| u == 0x1680
    ||| 0x2000 <= u <= 0x200A
    ||| u == 0x2028
    ||| u == 0x2029
    ||| u == 0x202F
    ||| u == 0x205F
    ||| u == 0x3000
}

/// `s` holds nothing but white space, so `s.trim()` is empty.
pub open spec fn is_blank(s: Seq<char>) -> bool {
    forall|i: int| 0 <= i < s.len() ==> is_white_space(#[trigger] s[i])
}

/// The character of the decimal digit `d`.
pub open spec fn digit_char(d: nat) -> char {
    (48 + d) as char
}

/// The decimal representation of `n`, without leading zeros (what `{}` prints).
pub open spec fn decimal(n: nat) -> Seq<char>
    decreases n,
{
    if n < 10 {
        seq![digit_char(n)]
    } else {
        decimal(n / 10).push(digit_char(n % 10))
    }
}

/// The lower-case hexadecimal character of the digit `d` (`0` to `f`).
pub open spec fn hex_char(d: nat) -> char {
    if d < 10 {
        (48 + d) as char
    } else {
        (87 + d) as char
    }
}

/// `s` is made of lower-case hexadecimal digits only.
pub open spec fn is_lower_hex(s: Seq<char>) -> bool {
    forall|i: int|
        0 <= i < s.len() ==> ('0' <= #[trigger] s[i] <= '9' || 'a' <= s[i] <= 'f')
}

/// The last `width` hexadecimal digits of `n`, most significant first,
/// padded with zeros.
pub open spec fn hex_fixed(n: nat, width: nat) -> Seq<char>
    decreases width,
{
    if width == 0 {
        Seq::empty()
    } else {
        hex_fixed(n / 16, (width - 1) as nat).push(hex_char(n % 16))
    }
}

// ---------------------------------------------------------------------------
// Lemmas
// ---------------------------------------------------------------------------

proof fn lemma_strip_leading(s: Seq<char>, set: Seq<char>, lo: int)
    requires
        0 <= lo <= s.len(),
        forall|j: int| 0 <= j < lo ==> set.contains(#[trigger] s[j]),
        lo == s.len() || !set.contains(s[lo]),
    ensures
        strip_leading(s, set) == s.subrange(lo, s.len() as int),
    decreases lo,
{
    if lo == 0 {
        assert(s.subrange(0, s.len() as int) =~= s);
    } else {
        assert(set.contains(s[0]));
        let t = s.drop_first();
        assert forall|j: int| 0 <= j < lo - 1 implies set.contains(#[trigger] t[j]) by {
            assert(t[j] == s[j + 1]);
        }
        lemma_strip_leading(t, set, lo - 1);
        assert(t.subrange(lo - 1, t.len() as int) =~= s.subrange(lo, s.len() as int));
    }
}

proof fn lemma_strip_trailing(s: Seq<char>, set: Seq<char>, hi: int)
    requires
        0 <= hi <= s.len(),
        forall|j: int| hi <= j < s.len() ==> set.contains(#[trigger] s[j]),
        hi == 0 || !set.contains(s[hi - 1]),
    ensures
        strip_trailing(s, set) == s.subrange(0, hi),
    decreases s.len() - hi,
{
    if hi == s.len() {
        assert(s.subrange(0, s.len() as int) =~= s);
    } else {
        assert(set.contains(s.last()));
        let t = s.drop_last();
        assert forall|j: int| hi <= j < t.len() implies set.contains(#[trigger] t[j]) by {
            assert(t[j] == s[j]);
        }
        lemma_strip_trailing(t, set, hi);
        assert(t.subrange(0, hi) =~= s.subrange(0, hi));
    }
}

proof fn lemma_strip_leading_shape(s: Seq<char>, set: Seq<char>) -> (lo: int)
    ensures
        0 <= lo <= s.len(),
        strip_leading(s, set) == s.subrange(lo, s.len() as int),
        strip_leading(s, set).len() > 0 ==> !set.contains(strip_leading(s, set)[0]),
    decreases s.len(),
{
    if s.len() > 0 && set.contains(s[0]) {
        let lo1 = lemma_strip_leading_shape(s.drop_first(), set);
        assert(s.drop_first().subrange(lo1, s.len() - 1) =~= s.subrange(lo1 + 1, s.len() as int));
        lo1 + 1
    } else {
        assert(s.subrange(0, s.len() as int) =~= s);
        0
    }
}

proof fn lemma_strip_trailing_shape(s: Seq<char>, set: Seq<char>) -> (hi: int)
    ensures
        0 <= hi <= s.len(),
        strip_trailing(s, set) == s.subrange(0, hi),
        strip_trailing(s, set).len() > 0 ==> !set.contains(strip_trailing(s, set).last()),
    decreases s.len(),
{
    if s.len() > 0 && set.contains(s.last()) {
        let hi1 = lemma_strip_trailing_shape(s.drop_last(), set);
        assert(s.drop_last().subrange(0, hi1) =~= s.subrange(0, hi1));
        hi1
    } else {
        assert(s.subrange(0, s.len() as int) =~= s);
        s.len() as int
    }
}

/// What `trimmed` leaves neither begins nor ends with a character of `set`,
/// and stands in `s` as a contiguous piece.
pub proof fn lemma_trimmed_ends(s: Seq<char>, set: Seq<char>)
    ensures
        trimmed(s, set).len() > 0 ==> !set.contains(trimmed(s, set)[0]),
        trimmed(s, set).len() > 0 ==> !set.contains(trimmed(s, set).last()),
        exists|lo: int| #[trigger] occurs_at(s, trimmed(s, set), lo),
{
    let lo = lemma_strip_leading_shape(s, set);
    let a = strip_leading(s, set);
    let hi = lemma_strip_trailing_shape(a, set);
    let t = trimmed(s, set);
    if t.len() > 0 {
        assert(t[0] == a[0]);
    }
    assert(s.subrange(lo, lo + t.len()) =~= t);
    assert(occurs_at(s, t, lo));
}

/// Trimming the same characters twice removes nothing more than trimming once.
pub proof fn lemma_trimmed_idempotent(s: Seq<char>, set: Seq<char>)
    ensures
        trimmed(trimmed(s, set), set) == trimmed(s, set),
{
    let t = trimmed(s, set);
    lemma_trimmed_ends(s, set);
    assert(strip_leading(t, set) == t);
    assert(strip_trailing(t, set) == t);
}

/// `i` is the first position of `c` in `s`.
pub open spec fn is_first_index(s: Seq<char>, c: char, i: int) -> bool {
    &&& 0 <= i < s.len()
    &&& s[i] == c
    &&& forall|j: int| 0 <= j < i ==> s[j] != c
}

/// `i` is the last position of `c` in `s`.
pub open spec fn is_last_index(s: Seq<char>, c: char, i: int) -> bool {
    &&& 0 <= i < s.len()
    &&& s[i] == c
    &&& forall|j: int| i < j < s.len() ==> s[j] != c
}

/// The first position of `c` in `s` (meaningful when `s` holds `c`).
pub open spec fn first_position(s: Seq<char>, c: char) -> int {
    choose|i: int| is_first_index(s, c, i)
}

/// The last position of `c` in `s` (meaningful when `s` holds `c`).
pub open spec fn last_position(s: Seq<char>, c: char) -> int {
    choose|i: int| is_last_index(s, c, i)
}

/// A character has at most one last position.
pub proof fn lemma_last_index_unique(s: Seq<char>, c: char, i: int)
    requires
        is_last_index(s, c, i),
    ensures
        last_position(s, c) == i,
{
    let j = last_position(s, c);
    assert(is_last_index(s, c, j));
    if j < i {
        assert(s[i] != c);
    }
    if i < j {
        assert(s[j] != c);
    }
}

/// A character has at most one first position.
pub proof fn lemma_first_index_unique(s: Seq<char>, c: char, i: int)
    requires
        is_first_index(s, c, i),
    ensures
        first_position(s, c) == i,
{
    let j = first_position(s, c);
    assert(is_first_index(s, c, j));
    if j < i {
        assert(s[j] != c);
    }
    if i < j {
        assert(s[i] != c);
    }
}

/// Filtering keeps a sequence whole when every element passes.
pub proof fn lemma_filter_keeps_all<T>(s: Seq<T>, keep: spec_fn(T) -> bool)
    requires
        forall|i: int| 0 <= i < s.len() ==> keep(#[trigger] s[i]),
    ensures
        s.filter(keep) == s,
    decreases s.len(),
{
    reveal_with_fuel(Seq::filter, 1);
    if s.len() > 0 {
        lemma_filter_keeps_all(s.drop_last(), keep);
        assert(s.drop_last().push(s.last()) =~= s);
    } else {
        assert(s.filter(keep) =~= s);
    }
}

// ---------------------------------------------------------------------------
// Executable functions
// ---------------------------------------------------------------------------

/// Calls `String::push`. The contract claims what std documents of it: the
/// characters afterwards are the former ones followed by `c`.
#[verifier::external_body]
fn push_char(s: &mut String, c: char)
    ensures
        final(s)@ == old(s)@.push(c),
{
    s.push(c);
}

/// The characters of `s`, in order.
pub fn chars_of(s: &str) -> (v: Vec<char>)
    ensures
        v@ == s@,
{
    let mut v: Vec<char> = Vec::new();
    for c in it: s.chars()
        invariant
            v@ == it.seq().take(it.index() as int),
    {
        v.push(c);
    }
    v
}

/// The string made of the characters of `v`, in order.
pub fn string_of(v: &Vec<char>) -> (s: String)
    ensures
        s@ == v@,
{
    let mut s = String::new();
    let n = v.len();
    for i in 0..n
        invariant
            n == v.len(),
            s@ == v@.take(i as int),
    {
        push_char(&mut s, v[i]);
        assert(v@.take(i + 1) =~= v@.take(i as int).push(v@[i as int]));
    }
    assert(v@.take(n as int) =~= v@);
    s
}

/// Appends `more` to `out`.
pub fn append_chars(out: &mut Vec<char>, more: &Vec<char>)
    ensures
        final(out)@ == old(out)@ + more@,
{
    let n = more.len();
    for k in 0..n
        invariant
            n == more.len(),
            out@ == old(out)@ + more@.take(k as int),
    {
        out.push(more[k]);
        assert(more@.take(k + 1) =~= more@.take(k as int).push(more@[k as int]));
        assert(old(out)@ + more@.take(k + 1) =~= (old(out)@ + more@.take(k as int)).push(
            more@[k as int],
        ));
    }
    assert(more@.take(n as int) =~= more@);
}

/// `a` followed by `b`.
pub fn concat(a: &str, b: &str) -> (r: String)
    ensures
        r@ == a@ + b@,
{
    let r = String::from_str(a);
    r.concat(b)
}

/// `p` occurs in `s` at position `i`.
pub fn matches_at(s: &Vec<char>, p: &Vec<char>, i: usize) -> (b: bool)
    requires
        i <= s.len(),
    ensures
        b == occurs_at(s@, p@, i as int),
{
    if p.len() > s.len() - i {
        return false;
    }
    let mut k: usize = 0;
    while k < p.len()
        invariant
            0 <= k <= p.len(),
            i + p.len() <= s.len(),
            forall|j: int| 0 <= j < k ==> s@[i + j] == p@[j],
        decreases p.len() - k,
    {
        if s[i + k] != p[k] {
            assert(s@.subrange(i as int, i + p.len())[k as int] == s@[i + k]);
            return false;
        }
        k += 1;
    }
    assert(s@.subrange(i as int, i + p.len()) =~= p@);
    true
}

/// Whether `p` occurs in `s`.
pub fn contains_chars(s: &Vec<char>, p: &Vec<char>) -> (b: bool)
    ensures
        b == contains_seq(s@, p@),
{
    if p.len() > s.len() {
        assert forall|i: int| !occurs_at(s@, p@, i) by {}
        return false;
    }
    let last = s.len() - p.len();
    let mut i: usize = 0;
    loop
        invariant
            i <= last,
            last == s.len() - p.len(),
            forall|j: int| 0 <= j < i ==> !occurs_at(s@, p@, j),
        decreases last - i,
    {
        if matches_at(s, p, i) {
            return true;
        }
        if i == last {
            assert forall|j: int| !occurs_at(s@, p@, j) by {
                if 0 <= j && j + p@.len() <= s@.len() {
                    assert(j <= i);
                }
            }
            return false;
        }
        i += 1;
    }
}

/// Whether `a` and `b` hold the same characters (`==` on strings).
pub fn str_eq(a: &str, b: &str) -> (r: bool)
    ensures
        r == (a@ == b@),
{
    let av = chars_of(a);
    let bv = chars_of(b);
    if av.len() != bv.len() {
        return false;
    }
    let r = matches_at(&av, &bv, 0);
    assert(av@.subrange(0, av@.len() as int) =~= av@);
    r
}

/// Whether `p` occurs in `s` (`str::contains`).
pub fn str_contains(s: &str, p: &str) -> (b: bool)
    ensures
        b == contains_seq(s@, p@),
{
    contains_chars(&chars_of(s), &chars_of(p))
}

/// Whether `s` begins with `p` (`str::starts_with`).
pub fn str_starts_with(s: &str, p: &str) -> (b: bool)
    ensures
        b == has_prefix(s@, p@),
{
    matches_at(&chars_of(s), &chars_of(p), 0)
}

/// Whether `v` holds `c`.
pub fn vec_has_char(v: &Vec<char>, c: char) -> (b: bool)
    ensures
        b == v@.contains(c),
{
    let n = v.len();
    for i in 0..n
        invariant
            n == v.len(),
            forall|j: int| 0 <= j < i ==> v@[j] != c,
    {
        if v[i] == c {
            assert(v@[i as int] == c);
            return true;
        }
    }
    false
}

proof fn lemma_replaced_step_match(s: Seq<char>, from: Seq<char>, to: Seq<char>, i: int)
    requires
        0 <= i,
        from.len() > 0,
        occurs_at(s, from, i),
    ensures
        replaced(s.subrange(i, s.len() as int), from, to) == to + replaced(
            s.subrange(i + from.len(), s.len() as int),
            from,
            to,
        ),
{
    let rest = s.subrange(i, s.len() as int);
    assert(rest.subrange(0, from.len() as int) =~= s.subrange(i, i + from.len()));
    assert(rest.subrange(from.len() as int, rest.len() as int) =~= s.subrange(
        i + from.len(),
        s.len() as int,
    ));
}

proof fn lemma_replaced_step_other(s: Seq<char>, from: Seq<char>, to: Seq<char>, i: int)
    requires
        0 <= i < s.len(),
        from.len() > 0,
        !occurs_at(s, from, i),
    ensures
        replaced(s.subrange(i, s.len() as int), from, to) == seq![s[i]] + replaced(
            s.subrange(i + 1, s.len() as int),
            from,
            to,
        ),
{
    let rest = s.subrange(i, s.len() as int);
    if from.len() <= rest.len() {
        assert(rest.subrange(0, from.len() as int) =~= s.subrange(i, i + from.len()));
    }
    assert(rest.drop_first() =~= s.subrange(i + 1, s.len() as int));
}

/// `s` with every occurrence of `from` replaced by `to` (`str::replace`).
pub fn replace_all(s: &str, from: &str, to: &str) -> (r: String)
    requires
        from@.len() > 0,
    ensures
        r@ == replaced(s@, from@, to@),
{
    let sv = chars_of(s);
    let fv = chars_of(from);
    let tv = chars_of(to);
    let n = sv.len();
    let mut out: Vec<char> = Vec::new();
    let mut i: usize = 0;
    assert(sv@.subrange(0, n as int) =~= sv@);
    while i < n
        invariant
            n == sv.len(),
            i <= n,
            fv@.len() > 0,
            out@ + replaced(sv@.subrange(i as int, n as int), fv@, tv@) == replaced(
                sv@,
                fv@,
                tv@,
            ),
        decreases n - i,
    {
        if matches_at(&sv, &fv, i) {
            proof {
                lemma_replaced_step_match(sv@, fv@, tv@, i as int);
                assert(out@ + (tv@ + replaced(sv@.subrange(i + fv@.len(), n as int), fv@, tv@))
                    =~= (out@ + tv@) + replaced(sv@.subrange(i + fv@.len(), n as int), fv@, tv@));
            }
            append_chars(&mut out, &tv);
            i += fv.len();
        } else {
            proof {
                lemma_replaced_step_other(sv@, fv@, tv@, i as int);
                assert(out@ + (seq![sv@[i as int]] + replaced(sv@.subrange(i + 1, n as int), fv@, tv@))
                    =~= out@.push(sv@[i as int]) + replaced(sv@.subrange(i + 1, n as int), fv@, tv@));
            }
            out.push(sv[i]);
            i += 1;
        }
    }
    assert(sv@.subrange(n as int, n as int) =~= Seq::<char>::empty());
    assert(out@ + Seq::<char>::empty() =~= out@);
    string_of(&out)
}

/// The characters `v[lo..hi]`.
pub fn sub_chars(v: &Vec<char>, lo: usize, hi: usize) -> (r: Vec<char>)
    requires
        lo <= hi <= v.len(),
    ensures
        r@ == v@.subrange(lo as int, hi as int),
{
    let mut r: Vec<char> = Vec::new();
    let mut k = lo;
    while k < hi
        invariant
            lo <= k <= hi,
            hi <= v.len(),
            r@ == v@.subrange(lo as int, k as int),
        decreases hi - k,
    {
        r.push(v[k]);
        assert(v@.subrange(lo as int, k + 1) =~= v@.subrange(lo as int, k as int).push(
            v@[k as int],
        ));
        k += 1;
    }
    r
}

/// `s` with the characters of `set` removed from both ends
/// (`str::trim_matches` with a membership test).
pub fn trim_chars(s: &str, set: &Vec<char>) -> (r: String)
    ensures
        r@ == trimmed(s@, set@),
{
    let sv = chars_of(s);
    let n = sv.len();
    let mut lo: usize = 0;
    while lo < n && vec_has_char(set, sv[lo])
        invariant
            n == sv.len(),
            lo <= n,
            forall|j: int| 0 <= j < lo ==> set@.contains(#[trigger] sv@[j]),
        decreases n - lo,
    {
        lo += 1;
    }
    let mut hi: usize = n;
    while hi > lo && vec_has_char(set, sv[hi - 1])
        invariant
            n == sv.len(),
            lo <= hi <= n,
            forall|j: int| hi <= j < n ==> set@.contains(#[trigger] sv@[j]),
        decreases hi - lo,
    {
        hi -= 1;
    }
    proof {
        lemma_strip_leading(sv@, set@, lo as int);
        let a = sv@.subrange(lo as int, n as int);
        assert forall|j: int| hi - lo <= j < a.len() implies set@.contains(#[trigger] a[j]) by {
            assert(a[j] == sv@[lo + j]);
        }
        if hi > lo {
            assert(a[hi - lo - 1] == sv@[hi - 1]);
        }
        lemma_strip_trailing(a, set@, hi - lo);
        assert(a.subrange(0, hi - lo) =~= sv@.subrange(lo as int, hi as int));
    }
    string_of(&sub_chars(&sv, lo, hi))
}

/// Whether `c` is white space (`char::is_whitespace`).
pub fn char_is_white_space(c: char) -> (b: bool)
    ensures
        b == is_white_space(c),
{
    let u = c as u32;
    (0x09 <= u && u <= 0x0D) || u == 0x20 || u == 0x85 || u == 0xA0 || u == 0x1680 || (0x2000
        <= u && u <= 0x200A) || u == 0x2028 || u == 0x2029 || u == 0x202F || u == 0x205F || u
        == 0x3000
}

/// Whether `s` holds nothing but white space (`s.trim().is_empty()`).
pub fn str_is_blank(s: &str) -> (b: bool)
    ensures
        b == is_blank(s@),
{
    let sv = chars_of(s);
    let n = sv.len();
    for i in 0..n
        invariant
            n == sv.len(),
            sv@ == s@,
            forall|j: int| 0 <= j < i ==> is_white_space(#[trigger] sv@[j]),
    {
        if !char_is_white_space(sv[i]) {
            assert(!is_white_space(s@[i as int]));
            return false;
        }
    }
    true
}

/// The character of the decimal digit `d`.
fn digit(d: u64) -> (c: char)
    requires
        d < 10,
    ensures
        c == digit_char(d as nat),
{
    match d {
        0 => '0',
        1 => '1',
        2 => '2',
        3 => '3',
        4 => '4',
        5 => '5',
        6 => '6',
        7 => '7',
        8 => '8',
        _ => '9',
    }
}

/// Appends the decimal representation of `n` to `out`.
pub fn push_decimal(out: &mut String, n: u64)
    ensures
        final(out)@ == old(out)@ + decimal(n as nat),
    decreases n,
{
    if n >= 10 {
        push_decimal(out, n / 10);
    }
    push_char(out, digit(n % 10));
    proof {
        if n >= 10 {
            assert(old(out)@ + decimal(n as nat) =~= (old(out)@ + decimal((n / 10) as nat)).push(
                digit_char((n % 10) as nat),
            ));
        } else {
            assert(old(out)@ + decimal(n as nat) =~= old(out)@.push(digit_char(n as nat)));
        }
    }
}

/// The decimal representation of `n` (what `n.to_string()` gives).
pub fn decimal_string(n: u64) -> (r: String)
    ensures
        r@ == decimal(n as nat),
{
    let mut r = String::new();
    push_decimal(&mut r, n);
    assert(Seq::<char>::empty() + decimal(n as nat) =~= decimal(n as nat));
    r
}

/// The lower-case hexadecimal character of the digit `d`.
fn hex_digit(d: u128) -> (c: char)
    requires
        d < 16,
    ensures
        c == hex_char(d as nat),
{
    match d {
        0 => '0',
        1 => '1',
        2 => '2',
        3 => '3',
        4 => '4',
        5 => '5',
        6 => '6',
        7 => '7',
        8 => '8',
        9 => '9',
        10 => 'a',
        11 => 'b',
        12 => 'c',
        13 => 'd',
        14 => 'e',
        _ => 'f',
    }
}

/// Appends the last `width` hexadecimal digits of `n`, padded with zeros.
pub fn push_hex_fixed(out: &mut Vec<char>, n: u128, width: u32)
    ensures
        final(out)@ == old(out)@ + hex_fixed(n as nat, width as nat),
    decreases width,
{
    if width > 0 {
        push_hex_fixed(out, n / 16, width - 1);
        out.push(hex_digit(n % 16));
        proof {
            assert(old(out)@ + hex_fixed(n as nat, width as nat) =~= (old(out)@ + hex_fixed(
                (n / 16) as nat,
                (width - 1) as nat,
            )).push(hex_char((n % 16) as nat)));
        }
    } else {
        assert(old(out)@ + hex_fixed(n as nat, 0) =~= old(out)@);
    }
}

/// Every character of a fixed-width hexadecimal form is a lower-case hex digit.
pub proof fn lemma_hex_fixed_shape(n: nat, width: nat)
    ensures
        hex_fixed(n, width).len() == width,
        is_lower_hex(hex_fixed(n, width)),
    decreases width,
{
    if width > 0 {
        lemma_hex_fixed_shape(n / 16, (width - 1) as nat);
        let d = n % 16;
        let c = hex_char(d);
        assert('0' <= c <= '9' || 'a' <= c <= 'f');
        let h = hex_fixed(n, width);
        assert forall|i: int| 0 <= i < h.len() implies ('0' <= #[trigger] h[i] <= '9' || 'a'
            <= h[i] <= 'f') by {
            if i < width - 1 {
                assert(h[i] == hex_fixed(n / 16, (width - 1) as nat)[i]);
            }
        }
    }
}

/// The first position of `c` in `v`, if any.
pub fn first_index_of(v: &Vec<char>, c: char) -> (r: Option<usize>)
    ensures
        match r {
            Some(i) => is_first_index(v@, c, i as int),
            None => !v@.contains(c),
        },
{
    let n = v.len();
    for i in 0..n
        invariant
            n == v.len(),
            forall|j: int| 0 <= j < i ==> v@[j] != c,
    {
        if v[i] == c {
            return Some(i);
        }
    }
    None
}

/// The last position of `c` in `v`, if any.
pub fn last_index_of(v: &Vec<char>, c: char) -> (r: Option<usize>)
    ensures
        match r {
            Some(i) => is_last_index(v@, c, i as int),
            None => !v@.contains(c),
        },
{
    let mut k = v.len();
    while k > 0
        invariant
            k <= v.len(),
            forall|j: int| k <= j < v.len() ==> v@[j] != c,
        decreases k,
    {
        if v[k - 1] == c {
            return Some(k - 1);
        }
        k -= 1;
    }
    None
}

} // verus!
