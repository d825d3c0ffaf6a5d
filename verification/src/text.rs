//! Character-level helpers shared by the naming and playlist modules.

use vstd::prelude::*;

verus! {

/// The ASCII digit for `d` (`d < 10`).
pub open spec fn digit_char(d: nat) -> char {
    if d == 0 { '0' }
    else if d == 1 { '1' }
    else if d == 2 { '2' }
    else if d == 3 { '3' }
    else if d == 4 { '4' }
    else if d == 5 { '5' }
    else if d == 6 { '6' }
    else if d == 7 { '7' }
    else if d == 8 { '8' }
    else { '9' }
}

/// Decimal notation of `n`, without leading zeros (as `{}` formats an integer).
pub open spec fn decimal(n: nat) -> Seq<char>
    decreases n,
{
    if n < 10 {
        seq![digit_char(n)]
    } else {
        decimal(n / 10).push(digit_char(n % 10))
    }
}

fn digit_of(d: u64) -> (c: char)
    requires
        d < 10,
    ensures
        c == digit_char(d as nat),
{
    if d == 0 { '0' }
    else if d == 1 { '1' }
    else if d == 2 { '2' }
    else if d == 3 { '3' }
    else if d == 4 { '4' }
    else if d == 5 { '5' }
    else if d == 6 { '6' }
    else if d == 7 { '7' }
    else if d == 8 { '8' }
    else { '9' }
}

/// Appends the decimal notation of `n` to `out`.
pub fn push_decimal(out: &mut Vec<char>, n: u64)
    ensures
        final(out)@ == old(out)@ + decimal(n as nat),
    decreases n,
{
    if n >= 10 {
        push_decimal(out, n / 10);
    }
    let c = digit_of(n % 10);
    out.push(c);
    proof {
        if n >= 10 {
            assert(decimal(n as nat) == decimal((n / 10) as nat).push(digit_char((n % 10) as nat)));
        }
    }
    assert(final(out)@ =~= old(out)@ + decimal(n as nat));
}

/// Appends every character of `s` to `out`.
pub fn push_all(out: &mut Vec<char>, s: &Vec<char>)
    ensures
        final(out)@ == old(out)@ + s@,
{
    let mut i: usize = 0;
    while i < s.len()
        invariant
            i <= s@.len(),
            out@ == old(out)@ + s@.subrange(0, i as int),
        decreases s@.len() - i,
    {
        out.push(s[i]);
        i = i + 1;
        assert(out@ =~= old(out)@ + s@.subrange(0, i as int));
    }
    assert(s@.subrange(0, i as int) =~= s@);
}

/// The characters of `s`, in order.
#[verifier::external_body]
pub(crate) fn chars_of(s: &str) -> (r: Vec<char>)
    ensures
        r@ == s@,
{
    s.chars().collect()
}

/// A string made of the characters of `v`, in order.
#[verifier::external_body]
pub(crate) fn string_from_chars(v: &Vec<char>) -> (r: String)
    ensures
        r@ == v@,
{
    v.iter().collect()
}


/// Rust's `char::is_whitespace`: the Unicode `White_Space` property.
pub open spec fn is_unicode_whitespace(c: char) -> bool {
    ||| ('\u{9}' <= c && c <= '\u{d}')
    ||| c == ' '
    ||| c == '\u{85}'
    ||| c == '\u{a0}'
    ||| c == '\u{1680}'
    ||| ('\u{2000}' <= c && c <= '\u{200a}')
    ||| c == '\u{2028}'
    ||| c == '\u{2029}'
    ||| c == '\u{202f}'
    ||| c == '\u{205f}'
    ||| c == '\u{3000}'
}

pub fn is_whitespace_char(c: char) -> (r: bool)
    ensures
        r == is_unicode_whitespace(c),
{
    ('\u{9}' <= c && c <= '\u{d}') || c == ' ' || c == '\u{85}' || c == '\u{a0}' || c == '\u{1680}'
        || ('\u{2000}' <= c && c <= '\u{200a}') || c == '\u{2028}' || c == '\u{2029}' || c
        == '\u{202f}' || c == '\u{205f}' || c == '\u{3000}'
}

/// Rust's `char::is_control`: the Unicode general category `Cc`.
pub open spec fn is_unicode_control(c: char) -> bool {
    c <= '\u{1f}' || ('\u{7f}' <= c && c <= '\u{9f}')
}

pub fn is_control_char(c: char) -> (r: bool)
    ensures
        r == is_unicode_control(c),
{
    c <= '\u{1f}' || ('\u{7f}' <= c && c <= '\u{9f}')
}

/// The sets of characters that the naming rules strip from both ends of a name.
#[derive(Clone, Copy)]
pub enum TrimSet {
    /// Unicode whitespace (`str::trim`).
    Whitespace,
    /// `.`, ` ` and `-`.
    DotSpaceDash,
    /// `.` and ` `.
    DotSpace,
}

pub open spec fn in_trim_set(t: TrimSet, c: char) -> bool {
    match t {
        TrimSet::Whitespace => is_unicode_whitespace(c),
        TrimSet::DotSpaceDash => c == '.' || c == ' ' || c == '-',
        TrimSet::DotSpace => c == '.' || c == ' ',
    }
}

pub fn is_in_trim_set(t: TrimSet, c: char) -> (r: bool)
    ensures
        r == in_trim_set(t, c),
{
    match t {
        TrimSet::Whitespace => is_whitespace_char(c),
        TrimSet::DotSpaceDash => c == '.' || c == ' ' || c == '-',
        TrimSet::DotSpace => c == '.' || c == ' ',
    }
}

/// How many characters at the front of `s` belong to the set `t`.
pub open spec fn leading_count(s: Seq<char>, t: TrimSet) -> nat
    decreases s.len(),
{
    if s.len() == 0 {
        0
    } else if in_trim_set(t, s[0]) {
        1 + leading_count(s.drop_first(), t)
    } else {
        0
    }
}

/// How many characters at the back of `s` belong to the set `t`.
pub open spec fn trailing_count(s: Seq<char>, t: TrimSet) -> nat
    decreases s.len(),
{
    if s.len() == 0 {
        0
    } else if in_trim_set(t, s.last()) {
        1 + trailing_count(s.drop_last(), t)
    } else {
        0
    }
}

/// `s` with every leading and trailing character of the set `t` removed
/// (`str::trim` for whitespace, `str::trim_matches` for the other sets).
pub open spec fn trim_set(s: Seq<char>, t: TrimSet) -> Seq<char> {
    if leading_count(s, t) >= s.len() {
        Seq::empty()
    } else {
        s.subrange(leading_count(s, t) as int, s.len() - trailing_count(s, t))
    }
}

pub proof fn lemma_leading_count(s: Seq<char>, t: TrimSet, i: int)
    requires
        0 <= i <= s.len(),
        forall|k: int| 0 <= k < i ==> in_trim_set(t, #[trigger] s[k]),
        i == s.len() || !in_trim_set(t, s[i]),
    ensures
        leading_count(s, t) == i,
    decreases i,
{
    if i > 0 {
        let r = s.drop_first();
        assert forall|k: int| 0 <= k < i - 1 implies in_trim_set(t, #[trigger] r[k]) by {
            assert(r[k] == s[k + 1]);
        }
        if i < s.len() {
            assert(r[i - 1] == s[i]);
        }
        lemma_leading_count(r, t, i - 1);
    }
}

pub proof fn lemma_trailing_count(s: Seq<char>, t: TrimSet, j: int)
    requires
        0 <= j <= s.len(),
        forall|k: int| s.len() - j <= k < s.len() ==> in_trim_set(t, #[trigger] s[k]),
        j == s.len() || !in_trim_set(t, s[s.len() - j - 1]),
    ensures
        trailing_count(s, t) == j,
    decreases j,
{
    if j > 0 {
        let r = s.drop_last();
        assert(in_trim_set(t, s[s.len() - 1]));
        assert forall|k: int| r.len() - (j - 1) <= k < r.len() implies in_trim_set(
            t,
            #[trigger] r[k],
        ) by {
            assert(r[k] == s[k]);
        }
        if j < s.len() {
            assert(r[r.len() - (j - 1) - 1] == s[s.len() - j - 1]);
        }
        lemma_trailing_count(r, t, j - 1);
    }
}

/// Removes the leading and trailing characters of the set `t`.
pub fn trim_chars(v: &Vec<char>, t: TrimSet) -> (r: Vec<char>)
    ensures
        r@ == trim_set(v@, t),
{
    let n = v.len();
    let mut i: usize = 0;
    while i < n && is_in_trim_set(t, v[i])
        invariant
            n == v@.len(),
            i <= n,
            forall|k: int| 0 <= k < i ==> in_trim_set(t, #[trigger] v@[k]),
        decreases n - i,
    {
        i = i + 1;
    }
    proof {
        lemma_leading_count(v@, t, i as int);
    }
    let mut out: Vec<char> = Vec::new();
    if i == n {
        return out;
    }
    let mut j: usize = n;
    while j > i && is_in_trim_set(t, v[j - 1])
        invariant
            n == v@.len(),
            i < n,
            !in_trim_set(t, v@[i as int]),
            i <= j <= n,
            forall|k: int| j <= k < n ==> in_trim_set(t, #[trigger] v@[k]),
        decreases j,
    {
        j = j - 1;
    }
    proof {
        if j == i {
            assert(false);
        }
        lemma_trailing_count(v@, t, (n - j) as int);
    }
    let mut k: usize = i;
    while k < j
        invariant
            i <= k <= j,
            j <= v@.len(),
            out@ == v@.subrange(i as int, k as int),
        decreases j - k,
    {
        out.push(v[k]);
        k = k + 1;
        assert(out@ =~= v@.subrange(i as int, k as int));
    }
    out
}

/// Joins `w` with a single space between consecutive words.
pub open spec fn join_words(w: Seq<Seq<char>>) -> Seq<char>
    decreases w.len(),
{
    if w.len() == 0 {
        Seq::empty()
    } else if w.len() == 1 {
        w[0]
    } else {
        join_words(w.drop_last()) + seq![' '] + w.last()
    }
}

/// The maximal runs of non-whitespace characters of `s`, in order
/// (`str::split_whitespace`).
pub open spec fn words(s: Seq<char>) -> Seq<Seq<char>>
    decreases s.len(),
{
    if s.len() == 0 {
        Seq::empty()
    } else {
        let w = words(s.drop_last());
        let c = s.last();
        if is_unicode_whitespace(c) {
            w
        } else if s.len() >= 2 && !is_unicode_whitespace(s[s.len() - 2]) {
            w.update(w.len() - 1, w.last().push(c))
        } else {
            w.push(seq![c])
        }
    }
}

/// `s.split_whitespace().collect::<Vec<_>>().join(" ")`.
pub open spec fn collapse_whitespace(s: Seq<char>) -> Seq<char> {
    join_words(words(s))
}

pub proof fn lemma_words_nonempty(s: Seq<char>)
    ensures
        forall|k: int| 0 <= k < words(s).len() ==> #[trigger] words(s)[k].len() > 0,
        s.len() > 0 && !is_unicode_whitespace(s.last()) ==> words(s).len() > 0,
    decreases s.len(),
{
    if s.len() > 0 {
        let p = s.drop_last();
        lemma_words_nonempty(p);
        if s.len() >= 2 && !is_unicode_whitespace(s[s.len() - 2]) {
            assert(p.last() == s[s.len() - 2]);
        }
    }
}

pub proof fn lemma_join_nonempty(w: Seq<Seq<char>>)
    requires
        forall|k: int| 0 <= k < w.len() ==> #[trigger] w[k].len() > 0,
    ensures
        w.len() > 0 <==> join_words(w).len() > 0,
{
    if w.len() > 1 {
        assert(w.last().len() > 0);
    } else if w.len() == 1 {
        assert(w[0].len() > 0);
    }
}

pub proof fn lemma_join_extend_last(w: Seq<Seq<char>>, c: char)
    requires
        w.len() > 0,
    ensures
        join_words(w.update(w.len() - 1, w.last().push(c))) == join_words(w).push(c),
{
    let u = w.update(w.len() - 1, w.last().push(c));
    if w.len() > 1 {
        assert(u.drop_last() =~= w.drop_last());
    }
    assert(join_words(u) =~= join_words(w).push(c));
}

pub proof fn lemma_join_push(w: Seq<Seq<char>>, x: Seq<char>)
    ensures
        join_words(w.push(x)) == if w.len() == 0 {
            x
        } else {
            join_words(w) + seq![' '] + x
        },
{
    assert(w.push(x).drop_last() =~= w);
}

/// Where every character of `s` is whitespace or a dot, its words are made
/// of dots.
pub proof fn lemma_words_of_dots(s: Seq<char>)
    requires
        forall|i: int| 0 <= i < s.len() ==> is_unicode_whitespace(#[trigger] s[i]) || s[i] == '.',
    ensures
        forall|k: int, i: int|
            0 <= k < words(s).len() && 0 <= i < words(s)[k].len() ==> #[trigger] words(s)[k][i]
                == '.',
    decreases s.len(),
{
    if s.len() > 0 {
        let p = s.drop_last();
        lemma_words_of_dots(p);
        lemma_words_nonempty(p);
        let w = words(p);
        let c = s.last();
        if !is_unicode_whitespace(c) && s.len() >= 2 && !is_unicode_whitespace(s[s.len() - 2]) {
            assert(p.last() == s[s.len() - 2]);
            let u = w.update(w.len() - 1, w.last().push(c));
            assert forall|k: int, i: int| 0 <= k < u.len() && 0 <= i < u[k].len() implies u[k][i]
                == '.' by {
                if k == w.len() - 1 && i == w.last().len() {
                } else if k == w.len() - 1 {
                    assert(u[k][i] == w[k][i]);
                }
            }
        } else if !is_unicode_whitespace(c) {
            let u = w.push(seq![c]);
            assert forall|k: int, i: int| 0 <= k < u.len() && 0 <= i < u[k].len() implies u[k][i]
                == '.' by {
                if k < w.len() {
                    assert(u[k] == w[k]);
                }
            }
        }
    }
}

/// Words made of dots join into dots and spaces.
pub proof fn lemma_join_of_dots(w: Seq<Seq<char>>)
    requires
        forall|k: int, i: int| 0 <= k < w.len() && 0 <= i < w[k].len() ==> #[trigger] w[k][i] == '.',
    ensures
        forall|i: int|
            0 <= i < join_words(w).len() ==> #[trigger] join_words(w)[i] == '.' || join_words(w)[i]
                == ' ',
    decreases w.len(),
{
    if w.len() == 1 {
        assert forall|i: int| 0 <= i < join_words(w).len() implies #[trigger] join_words(w)[i]
            == '.' || join_words(w)[i] == ' ' by {
            assert(w[0][i] == '.');
        }
    } else if w.len() > 1 {
        let d = w.drop_last();
        assert forall|k: int, i: int| 0 <= k < d.len() && 0 <= i < d[k].len() implies #[trigger] d[k][i]
            == '.' by {
            assert(d[k] == w[k]);
            assert(w[k][i] == '.');
        }
        lemma_join_of_dots(d);
        let j = join_words(d);
        assert forall|i: int| 0 <= i < join_words(w).len() implies #[trigger] join_words(w)[i]
            == '.' || join_words(w)[i] == ' ' by {
            if i < j.len() {
                assert(join_words(w)[i] == j[i]);
            } else if i > j.len() {
                assert(join_words(w)[i] == w.last()[i - j.len() - 1]);
                assert(w[w.len() - 1][i - j.len() - 1] == '.');
            }
        }
    }
}

/// A character of `s` that is not whitespace is in one of its words.
pub proof fn lemma_words_keep(s: Seq<char>, j: int)
    requires
        0 <= j < s.len(),
        !is_unicode_whitespace(s[j]),
    ensures
        exists|k: int, i: int|
            0 <= k < words(s).len() && 0 <= i < words(s)[k].len() && #[trigger] words(s)[k][i]
                == s[j],
    decreases s.len(),
{
    let p = s.drop_last();
    lemma_words_nonempty(p);
    let w = words(p);
    let c = s.last();
    if j == s.len() - 1 {
        if s.len() >= 2 && !is_unicode_whitespace(s[s.len() - 2]) {
            assert(p.last() == s[s.len() - 2]);
            let u = w.update(w.len() - 1, w.last().push(c));
            assert(words(s) == u);
            let k = w.len() - 1;
            let i = w.last().len() as int;
            assert(0 <= k < words(s).len() && 0 <= i < words(s)[k].len() && words(s)[k][i] == s[j]);
        } else {
            let u = w.push(seq![c]);
            assert(words(s) == u);
            let k = w.len() as int;
            assert(0 <= k < words(s).len() && 0 < words(s)[k].len() && words(s)[k][0] == s[j]);
        }
    } else {
        assert(p[j] == s[j]);
        lemma_words_keep(p, j);
        let (k, i) = choose|k: int, i: int|
            0 <= k < w.len() && 0 <= i < w[k].len() && #[trigger] w[k][i] == p[j];
        if is_unicode_whitespace(c) {
            assert(words(s) == w);
            assert(0 <= k < words(s).len() && 0 <= i < words(s)[k].len() && words(s)[k][i] == s[j]);
        } else if s.len() >= 2 && !is_unicode_whitespace(s[s.len() - 2]) {
            assert(p.last() == s[s.len() - 2]);
            let u = w.update(w.len() - 1, w.last().push(c));
            assert(words(s) == u);
            assert(u[k][i] == s[j]);
            assert(0 <= k < words(s).len() && 0 <= i < words(s)[k].len() && words(s)[k][i] == s[j]);
        } else {
            let u = w.push(seq![c]);
            assert(words(s) == u);
            assert(u[k] == w[k]);
            assert(0 <= k < words(s).len() && 0 <= i < words(s)[k].len() && words(s)[k][i] == s[j]);
        }
    }
}

/// A character of a word is in the joined words.
pub proof fn lemma_join_keep(w: Seq<Seq<char>>, k: int, i: int)
    requires
        0 <= k < w.len(),
        0 <= i < w[k].len(),
    ensures
        exists|m: int| 0 <= m < join_words(w).len() && #[trigger] join_words(w)[m] == w[k][i],
    decreases w.len(),
{
    if w.len() == 1 {
        assert(join_words(w)[i] == w[k][i]);
    } else {
        let d = w.drop_last();
        let j = join_words(d);
        if k == w.len() - 1 {
            assert(join_words(w)[j.len() + 1 + i] == w[k][i]);
        } else {
            assert(d[k] == w[k]);
            lemma_join_keep(d, k, i);
            let m = choose|m: int| 0 <= m < j.len() && #[trigger] j[m] == d[k][i];
            assert(join_words(w)[m] == w[k][i]);
        }
    }
}

/// Replaces every run of whitespace by one space and drops leading and
/// trailing whitespace.
pub fn collapse_whitespace_chars(v: &Vec<char>) -> (r: Vec<char>)
    ensures
        r@ == collapse_whitespace(v@),
{
    let mut out: Vec<char> = Vec::new();
    let mut i: usize = 0;
    assert(v@.take(0) =~= Seq::<char>::empty());
    while i < v.len()
        invariant
            i <= v@.len(),
            out@ == collapse_whitespace(v@.take(i as int)),
        decreases v@.len() - i,
    {
        let c = v[i];
        let ghost p = v@.take(i as int);
        let ghost s = v@.take(i + 1);
        proof {
            assert(s.drop_last() =~= p);
            assert(s.last() == c);
            lemma_words_nonempty(p);
            lemma_join_nonempty(words(p));
            if i >= 1 {
                assert(s[s.len() - 2] == v@[i - 1]);
                assert(p.last() == v@[i - 1]);
            }
        }
        if is_whitespace_char(c) {
        } else if i >= 1 && !is_whitespace_char(v[i - 1]) {
            proof {
                lemma_join_extend_last(words(p), c);
            }
            out.push(c);
        } else {
            proof {
                lemma_join_push(words(p), seq![c]);
            }
            if out.len() > 0 {
                out.push(' ');
            }
            out.push(c);
            assert(out@ =~= collapse_whitespace(s));
        }
        i = i + 1;
    }
    assert(v@.take(v@.len() as int) =~= v@);
    out
}


/// The characters of `v` from `from` up to `to`.
pub fn subrange_chars(v: &Vec<char>, from: usize, to: usize) -> (r: Vec<char>)
    requires
        from <= to <= v@.len(),
    ensures
        r@ == v@.subrange(from as int, to as int),
{
    let mut out: Vec<char> = Vec::new();
    let mut k: usize = from;
    while k < to
        invariant
            from <= k <= to,
            to <= v@.len(),
            out@ == v@.subrange(from as int, k as int),
        decreases to - k,
    {
        out.push(v[k]);
        k = k + 1;
        assert(out@ =~= v@.subrange(from as int, k as int));
    }
    out
}

/// `s` begins with `p`.
pub open spec fn has_prefix(s: Seq<char>, p: Seq<char>) -> bool {
    s.len() >= p.len() && s.subrange(0, p.len() as int) == p
}

/// `s` ends with `p`.
pub open spec fn has_suffix(s: Seq<char>, p: Seq<char>) -> bool {
    s.len() >= p.len() && s.subrange(s.len() - p.len(), s.len() as int) == p
}

pub fn starts_with_chars(v: &Vec<char>, p: &Vec<char>) -> (r: bool)
    ensures
        r == has_prefix(v@, p@),
{
    if v.len() < p.len() {
        return false;
    }
    let mut i: usize = 0;
    while i < p.len()
        invariant
            p@.len() <= v@.len(),
            i <= p@.len(),
            forall|k: int| 0 <= k < i ==> v@[k] == p@[k],
        decreases p@.len() - i,
    {
        if v[i] != p[i] {
            assert(v@.subrange(0, p@.len() as int)[i as int] != p@[i as int]);
            return false;
        }
        i = i + 1;
    }
    assert(v@.subrange(0, p@.len() as int) =~= p@);
    true
}

pub fn ends_with_chars(v: &Vec<char>, p: &Vec<char>) -> (r: bool)
    ensures
        r == has_suffix(v@, p@),
{
    if v.len() < p.len() {
        return false;
    }
    let off = v.len() - p.len();
    let mut i: usize = 0;
    while i < p.len()
        invariant
            off + p@.len() == v@.len(),
            v@.len() <= usize::MAX,
            i <= p@.len(),
            forall|k: int| 0 <= k < i ==> v@[off + k] == p@[k],
        decreases p@.len() - i,
    {
        if v[off + i] != p[i] {
            assert(v@.subrange(off as int, v@.len() as int)[i as int] != p@[i as int]);
            return false;
        }
        i = i + 1;
    }
    assert(v@.subrange(off as int, v@.len() as int) =~= p@);
    true
}

/// Rust's `str::strip_suffix(p).unwrap_or(s)`.
pub open spec fn without_suffix(s: Seq<char>, p: Seq<char>) -> Seq<char> {
    if has_suffix(s, p) {
        s.subrange(0, s.len() - p.len())
    } else {
        s
    }
}

pub fn strip_suffix_chars(v: &Vec<char>, p: &str) -> (r: Vec<char>)
    ensures
        r@ == without_suffix(v@, p@),
{
    let pv = chars_of(p);
    if ends_with_chars(v, &pv) {
        subrange_chars(v, 0, v.len() - pv.len())
    } else {
        subrange_chars(v, 0, v.len())
    }
}

/// Joins a directory and a name the way `Path::join` does on Unix: an
/// absolute name replaces the directory; otherwise a `/` separates them
/// unless the directory is empty or already ends in `/`.
pub open spec fn join_path(dir: Seq<char>, name: Seq<char>) -> Seq<char> {
    if name.len() > 0 && name[0] == '/' {
        name
    } else if dir.len() == 0 || dir.last() == '/' {
        dir + name
    } else {
        dir + seq!['/'] + name
    }
}

pub fn join_path_chars(dir: &Vec<char>, name: &Vec<char>) -> (r: Vec<char>)
    ensures
        r@ == join_path(dir@, name@),
{
    if name.len() > 0 && name[0] == '/' {
        return subrange_chars(name, 0, name.len());
    }
    let mut out = subrange_chars(dir, 0, dir.len());
    assert(out@ =~= dir@);
    if dir.len() > 0 && dir[dir.len() - 1] != '/' {
        out.push('/');
    }
    push_all(&mut out, name);
    out
}

} // verus!
