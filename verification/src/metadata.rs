//! File-name rules for saved videos.

use vstd::prelude::*;
use crate::text::{
    chars_of, collapse_whitespace, collapse_whitespace_chars, in_trim_set, is_control_char,
    is_unicode_control, is_unicode_whitespace, join_words, lemma_join_nonempty,
    lemma_leading_count, lemma_trailing_count, lemma_words_nonempty, leading_count,
    string_from_chars, trailing_count, trim_chars, trim_set, words, TrimSet,
};

verus! {

/// The characters that the common file systems refuse in a file name.
pub open spec fn is_reserved_path_char(c: char) -> bool {
    c == '<' || c == '>' || c == ':' || c == '"' || c == '/' || c == '\\' || c == '|' || c == '?'
        || c == '*'
}

pub fn is_reserved_path_character(c: char) -> (r: bool)
    ensures
        r == is_reserved_path_char(c),
{
    c == '<' || c == '>' || c == ':' || c == '"' || c == '/' || c == '\\' || c == '|' || c == '?'
        || c == '*'
}

/// A reserved or control character becomes `-`; others stay.
pub open spec fn stem_char(c: char) -> char {
    if is_reserved_path_char(c) || is_unicode_control(c) {
        '-'
    } else {
        c
    }
}

/// The name used when nothing usable is left of the input.
pub open spec fn fallback_title() -> Seq<char> {
    "streamkeep-video"@
}

/// The cleaned name before the fallback applies: trim, replace reserved and
/// control characters by `-`, collapse whitespace runs into one space, then
/// strip `.`, ` ` and `-` from both ends.
pub open spec fn cleaned_stem(s: Seq<char>) -> Seq<char> {
    trim_set(
        collapse_whitespace(trim_set(s, TrimSet::Whitespace).map_values(|c: char| stem_char(c))),
        TrimSet::DotSpaceDash,
    )
}

/// What `sanitize_file_stem` returns for the characters `s`.
pub open spec fn sanitized_stem(s: Seq<char>) -> Seq<char> {
    if cleaned_stem(s).len() == 0 {
        fallback_title()
    } else {
        cleaned_stem(s)
    }
}

/// `s` ends in `.mp4`, the letters in either case.
pub open spec fn has_mp4_suffix(s: Seq<char>) -> bool {
    &&& s.len() >= 4
    &&& s[s.len() - 4] == '.'
    &&& (s[s.len() - 3] == 'm' || s[s.len() - 3] == 'M')
    &&& (s[s.len() - 2] == 'p' || s[s.len() - 2] == 'P')
    &&& s[s.len() - 1] == '4'
}

/// `s`, with `.mp4` appended unless it already ends in it.
pub open spec fn with_mp4_extension(s: Seq<char>) -> Seq<char> {
    if has_mp4_suffix(s) {
        s
    } else {
        s + ".mp4"@
    }
}

pub fn ends_with_mp4(v: &Vec<char>) -> (r: bool)
    ensures
        r == has_mp4_suffix(v@),
{
    let n = v.len();
    n >= 4 && v[n - 4] == '.' && (v[n - 3] == 'm' || v[n - 3] == 'M') && (v[n - 2] == 'p' || v[n
        - 2] == 'P') && v[n - 1] == '4'
}

/// Appends `.mp4` to `v` unless it already ends in it.
pub fn push_mp4_extension(v: &mut Vec<char>)
    ensures
        final(v)@ == with_mp4_extension(old(v)@),
{
    proof {
        reveal_strlit(".mp4");
    }
    if !ends_with_mp4(v) {
        v.push('.');
        v.push('m');
        v.push('p');
        v.push('4');
        assert(final(v)@ =~= old(v)@ + ".mp4"@);
    }
}

fn replace_stem_chars(v: &Vec<char>) -> (r: Vec<char>)
    ensures
        r@ == v@.map_values(|c: char| stem_char(c)),
{
    let mut out: Vec<char> = Vec::new();
    let mut i: usize = 0;
    while i < v.len()
        invariant
            i <= v@.len(),
            out@ == v@.subrange(0, i as int).map_values(|c: char| stem_char(c)),
        decreases v@.len() - i,
    {
        let c = v[i];
        let d = if is_reserved_path_character(c) || is_control_char(c) {
            '-'
        } else {
            c
        };
        out.push(d);
        i = i + 1;
        assert(out@ =~= v@.subrange(0, i as int).map_values(|c: char| stem_char(c)));
    }
    assert(v@.subrange(0, i as int) =~= v@);
    out
}

/// The characters of `sanitize_file_stem(input)`.
pub fn sanitized_stem_chars(input: &str) -> (r: Vec<char>)
    ensures
        r@ == sanitized_stem(input@),
{
    let chars = chars_of(input);
    let trimmed = trim_chars(&chars, TrimSet::Whitespace);
    let replaced = replace_stem_chars(&trimmed);
    let collapsed = collapse_whitespace_chars(&replaced);
    let cleaned = trim_chars(&collapsed, TrimSet::DotSpaceDash);
    if cleaned.len() == 0 {
        proof {
            reveal_strlit("streamkeep-video");
        }
        chars_of("streamkeep-video")
    } else {
        cleaned
    }
}

/// Turns `input` into a name that a file system accepts: surrounding
/// whitespace goes, each of `<>:"/\|?*` and each control character becomes
/// `-`, runs of whitespace become one space, and `.`, ` ` and `-` are
/// stripped from both ends. An input with nothing left gives
/// `streamkeep-video`.
pub fn sanitize_file_stem(input: &str) -> (r: String)
    ensures
        r@ == sanitized_stem(input@),
{
    let v = sanitized_stem_chars(input);
    string_from_chars(&v)
}

/// The sanitized form of `file_stem` with an `.mp4` extension: appended
/// unless the sanitized name already ends in `.mp4` (in any letter case).
pub fn ensure_mp4_extension(file_stem: &str) -> (r: String)
    ensures
        r@ == with_mp4_extension(sanitized_stem(file_stem@)),
{
    let mut v = sanitized_stem_chars(file_stem);
    push_mp4_extension(&mut v);
    string_from_chars(&v)
}


/// Neither reserved nor a control character.
pub open spec fn is_safe_char(c: char) -> bool {
    !is_reserved_path_char(c) && !is_unicode_control(c)
}

pub open spec fn all_safe(s: Seq<char>) -> bool {
    forall|k: int| 0 <= k < s.len() ==> is_safe_char(#[trigger] s[k])
}

/// Every whitespace character of `s` is a space standing between two
/// non-whitespace characters.
pub open spec fn is_single_spaced(s: Seq<char>) -> bool {
    &&& forall|k: int| 0 <= k < s.len() && is_unicode_whitespace(#[trigger] s[k]) ==> s[k] == ' '
    &&& s.len() > 0 ==> !is_unicode_whitespace(s[0]) && !is_unicode_whitespace(s[s.len() - 1])
    &&& forall|i: int, j: int|
        0 <= i && j == i + 1 && j < s.len() ==> !(is_unicode_whitespace(#[trigger] s[i])
            && is_unicode_whitespace(#[trigger] s[j]))
}

/// Non-empty, safe, single-spaced, and neither starting nor ending with a
/// character of the set `t`.
pub open spec fn is_clean_in(s: Seq<char>, t: TrimSet) -> bool {
    &&& s.len() > 0
    &&& all_safe(s)
    &&& is_single_spaced(s)
    &&& !in_trim_set(t, s[0])
    &&& !in_trim_set(t, s[s.len() - 1])
}

/// The shape of every name that `sanitize_file_stem` returns.
pub open spec fn is_clean_stem(s: Seq<char>) -> bool {
    is_clean_in(s, TrimSet::DotSpaceDash)
}

pub proof fn lemma_words_props(s: Seq<char>)
    ensures
        forall|k: int, i: int|
            0 <= k < words(s).len() && 0 <= i < words(s)[k].len() ==> !is_unicode_whitespace(
                #[trigger] words(s)[k][i],
            ) && (all_safe(s) ==> is_safe_char(words(s)[k][i])),
    decreases s.len(),
{
    if s.len() > 0 {
        let p = s.drop_last();
        let c = s.last();
        lemma_words_props(p);
        lemma_words_nonempty(p);
        let w = words(p);
        if all_safe(s) {
            assert forall|k: int| 0 <= k < p.len() implies is_safe_char(#[trigger] p[k]) by {
                assert(p[k] == s[k]);
            }
            assert(is_safe_char(s[s.len() - 1]));
        }
        if is_unicode_whitespace(c) {
        } else if s.len() >= 2 && !is_unicode_whitespace(s[s.len() - 2]) {
            assert(p.last() == s[s.len() - 2]);
            let u = w.update(w.len() - 1, w.last().push(c));
            assert forall|k: int, i: int| 0 <= k < u.len() && 0 <= i < u[k].len() implies
                !is_unicode_whitespace(#[trigger] u[k][i]) && (all_safe(s) ==> is_safe_char(
                u[k][i])) by {
                if k == w.len() - 1 && i == w[k].len() {
                    assert(u[k][i] == c);
                } else if k == w.len() - 1 {
                    assert(u[k][i] == w[k][i]);
                } else {
                    assert(u[k] == w[k]);
                }
            }
        } else {
            let u = w.push(seq![c]);
            assert forall|k: int, i: int| 0 <= k < u.len() && 0 <= i < u[k].len() implies
                !is_unicode_whitespace(#[trigger] u[k][i]) && (all_safe(s) ==> is_safe_char(
                u[k][i])) by {
                if k == w.len() {
                    assert(u[k][i] == c);
                } else {
                    assert(u[k] == w[k]);
                }
            }
        }
    }
}

pub proof fn lemma_join_props(w: Seq<Seq<char>>)
    requires
        forall|k: int| 0 <= k < w.len() ==> #[trigger] w[k].len() > 0,
        forall|k: int, i: int|
            0 <= k < w.len() && 0 <= i < w[k].len() ==> !is_unicode_whitespace(#[trigger] w[k][i])
                && is_safe_char(w[k][i]),
    ensures
        all_safe(join_words(w)),
        is_single_spaced(join_words(w)),
    decreases w.len(),
{
    if w.len() == 1 {
        let x = w[0];
        assert forall|i: int| 0 <= i < x.len() implies is_safe_char(#[trigger] x[i])
            && !is_unicode_whitespace(x[i]) by {
            assert(x[i] == w[0][i]);
        }
    } else if w.len() > 1 {
        let v = w.drop_last();
        assert forall|k: int| 0 <= k < v.len() implies #[trigger] v[k].len() > 0 by {
            assert(v[k] == w[k]);
        }
        assert forall|k: int, i: int| 0 <= k < v.len() && 0 <= i < v[k].len() implies
            !is_unicode_whitespace(#[trigger] v[k][i]) && is_safe_char(v[k][i]) by {
            assert(v[k] == w[k]);
        }
        lemma_join_props(v);
        lemma_join_nonempty(v);
        let a = join_words(v);
        let x = w.last();
        assert(x.len() > 0);
        let j = join_words(w);
        assert(j == a + seq![' '] + x);
        assert forall|i: int| 0 <= i < x.len() implies is_safe_char(#[trigger] x[i])
            && !is_unicode_whitespace(x[i]) by {
            assert(x[i] == w[w.len() - 1][i]);
        }
        assert forall|k: int| 0 <= k < j.len() implies is_safe_char(#[trigger] j[k]) by {
            if k < a.len() {
                assert(j[k] == a[k]);
            } else if k == a.len() {
                assert(j[k] == ' ');
            } else {
                assert(j[k] == x[k - a.len() - 1]);
            }
        }
        assert forall|k: int| 0 <= k < j.len() && is_unicode_whitespace(#[trigger] j[k]) implies j[k]
            == ' ' by {
            if k < a.len() {
                assert(j[k] == a[k]);
            } else if k > a.len() {
                assert(j[k] == x[k - a.len() - 1]);
            }
        }
        assert(j[0] == a[0]);
        assert(j[j.len() - 1] == x[x.len() - 1]);
        assert forall|i: int, k: int| 0 <= i && k == i + 1 && k < j.len() implies !(
        is_unicode_whitespace(#[trigger] j[i]) && is_unicode_whitespace(#[trigger] j[k])) by {
            if k < a.len() {
                assert(j[i] == a[i]);
                assert(j[k] == a[k]);
            } else if k == a.len() {
                assert(j[i] == a[a.len() - 1]);
            } else if i == a.len() {
                assert(j[k] == x[0]);
            } else {
                assert(j[k] == x[k - a.len() - 1]);
            }
        }
    }
}

pub proof fn lemma_trim_set_props(s: Seq<char>, t: TrimSet)
    requires
        all_safe(s),
        is_single_spaced(s),
    ensures
        trim_set(s, t).len() > 0 ==> is_clean_in(trim_set(s, t), t),
{
    let l = leading_count(s, t);
    let r = trailing_count(s, t);
    lemma_trim_bounds(s, t);
    if l < s.len() {
        let u = s.subrange(l as int, s.len() - r);
        assert(u.len() > 0);
        assert(u[0] == s[l as int]);
        assert(u[u.len() - 1] == s[s.len() - r - 1]);
        assert forall|k: int| 0 <= k < u.len() implies is_safe_char(#[trigger] u[k]) by {
            assert(u[k] == s[k + l]);
        }
        assert forall|k: int| 0 <= k < u.len() && is_unicode_whitespace(#[trigger] u[k]) implies u[k]
            == ' ' by {
            assert(u[k] == s[k + l]);
        }
        assert forall|i: int, k: int| 0 <= i && k == i + 1 && k < u.len() implies !(
        is_unicode_whitespace(#[trigger] u[i]) && is_unicode_whitespace(#[trigger] u[k])) by {
            assert(u[i] == s[i + l]);
            assert(u[k] == s[k + l]);
            assert(s[k + l] == s[(i + l) + 1]);
        }
    }
}

/// Facts on the counts of characters stripped from the two ends.
pub proof fn lemma_trim_bounds(s: Seq<char>, t: TrimSet)
    ensures
        leading_count(s, t) <= s.len(),
        trailing_count(s, t) <= s.len(),
        leading_count(s, t) < s.len() ==> !in_trim_set(t, s[leading_count(s, t) as int]),
        trailing_count(s, t) < s.len() ==> !in_trim_set(
            t,
            s[s.len() - trailing_count(s, t) - 1],
        ),
        leading_count(s, t) < s.len() ==> leading_count(s, t) + trailing_count(s, t) < s.len(),
        forall|k: int| 0 <= k < leading_count(s, t) ==> in_trim_set(t, #[trigger] s[k]),
        forall|k: int|
            s.len() - trailing_count(s, t) <= k < s.len() ==> in_trim_set(t, #[trigger] s[k]),
    decreases s.len(),
{
    if s.len() > 0 {
        lemma_trim_bounds(s.drop_first(), t);
        lemma_trim_bounds(s.drop_last(), t);
        let l = leading_count(s, t);
        let r = trailing_count(s, t);
        if in_trim_set(t, s[0]) {
            let d = s.drop_first();
            assert forall|k: int| 0 <= k < l implies in_trim_set(t, #[trigger] s[k]) by {
                if k > 0 {
                    assert(s[k] == d[k - 1]);
                }
            }
            if l < s.len() {
                assert(s[l as int] == d[l - 1]);
            }
        }
        if in_trim_set(t, s.last()) {
            let d = s.drop_last();
            assert forall|k: int| s.len() - r <= k < s.len() implies in_trim_set(
                t,
                #[trigger] s[k],
            ) by {
                if k < s.len() - 1 {
                    assert(s[k] == d[k]);
                }
            }
            if r < s.len() {
                assert(s[s.len() - r - 1] == d[d.len() - (r - 1) - 1]);
            }
        }
        if l < s.len() && l + r >= s.len() {
            assert(in_trim_set(t, s[l as int]));
        }
    }
}

pub proof fn lemma_collapse_clean(s: Seq<char>)
    requires
        is_single_spaced(s) || (s.len() > 0 && is_single_spaced(s.drop_last())
            && s.last() == ' '),
        s.len() > 0 ==> !is_unicode_whitespace(s[0]),
        forall|k: int| 0 <= k < s.len() && is_unicode_whitespace(#[trigger] s[k]) ==> s[k] == ' ',
        forall|i: int, j: int|
            0 <= i && j == i + 1 && j < s.len() ==> !(is_unicode_whitespace(#[trigger] s[i])
                && is_unicode_whitespace(#[trigger] s[j])),
    ensures
        collapse_whitespace(s) == if s.len() > 0 && is_unicode_whitespace(s.last()) {
            s.drop_last()
        } else {
            s
        },
    decreases s.len(),
{
    if s.len() > 0 {
        let p = s.drop_last();
        let c = s.last();
        assert forall|k: int| 0 <= k < p.len() && is_unicode_whitespace(#[trigger] p[k]) implies p[k]
            == ' ' by {
            assert(p[k] == s[k]);
        }
        assert forall|i: int, j: int| 0 <= i && j == i + 1 && j < p.len() implies !(
        is_unicode_whitespace(#[trigger] p[i]) && is_unicode_whitespace(#[trigger] p[j])) by {
            assert(p[i] == s[i]);
            assert(p[j] == s[j]);
        }
        if p.len() > 0 {
            assert(p[0] == s[0]);
            if p.len() >= 2 {
                assert(p[p.len() - 1] == s[s.len() - 2]);
                if is_unicode_whitespace(s[s.len() - 2]) {
                    assert(s[s.len() - 3] == p[p.len() - 2]);
                    assert(!is_unicode_whitespace(s[s.len() - 3]));
                }
            }
        }
        if p.len() > 0 && is_unicode_whitespace(p.last()) {
            assert(p.len() >= 2);
            assert(!is_unicode_whitespace(p[p.len() - 2]));
        }
        lemma_collapse_clean(p);
        lemma_words_nonempty(p);
        lemma_join_nonempty(words(p));
        if is_unicode_whitespace(c) {
            assert(s.len() >= 2);
            assert(p.last() == s[s.len() - 2]);
            assert(!is_unicode_whitespace(p.last()));
        } else if s.len() >= 2 && !is_unicode_whitespace(s[s.len() - 2]) {
            assert(p.last() == s[s.len() - 2]);
            crate::text::lemma_join_extend_last(words(p), c);
            assert(s =~= p.push(c));
        } else if s.len() >= 2 {
            assert(p.last() == s[s.len() - 2]);
            assert(p.len() >= 2);
            crate::text::lemma_join_push(words(p), seq![c]);
            assert(p.last() == ' ');
            assert(p.drop_last() + seq![' '] + seq![c] =~= s);
        } else {
            crate::text::lemma_join_push(words(p), seq![c]);
            assert(s =~= seq![c]);
        }
    }
}

/// A clean name is left unchanged by the cleaning steps.
proof fn lemma_clean_fixed(s: Seq<char>)
    requires
        is_clean_stem(s),
    ensures
        cleaned_stem(s) == s,
        sanitized_stem(s) == s,
{
    lemma_leading_count(s, TrimSet::Whitespace, 0);
    lemma_trailing_count(s, TrimSet::Whitespace, 0);
    let t0 = trim_set(s, TrimSet::Whitespace);
    assert(t0 =~= s);
    let m = t0.map_values(|c: char| stem_char(c));
    assert(m =~= s);
    lemma_collapse_clean(s);
    assert(collapse_whitespace(m) == s);
    lemma_leading_count(s, TrimSet::DotSpaceDash, 0);
    lemma_trailing_count(s, TrimSet::DotSpaceDash, 0);
    assert(trim_set(s, TrimSet::DotSpaceDash) =~= s);
}

/// Every name that `sanitize_file_stem` returns is non-empty, holds no
/// reserved or control character, has only single spaces between words as
/// whitespace, and neither starts nor ends with `.`, ` ` or `-`.
pub proof fn sanitized_stem_is_clean(s: Seq<char>)
    ensures
        is_clean_stem(sanitized_stem(s)),
{
    let t0 = trim_set(s, TrimSet::Whitespace);
    let m = t0.map_values(|c: char| stem_char(c));
    assert(all_safe(m)) by {
        assert forall|k: int| 0 <= k < m.len() implies is_safe_char(#[trigger] m[k]) by {
            assert(m[k] == stem_char(t0[k]));
        }
    }
    lemma_words_props(m);
    lemma_words_nonempty(m);
    lemma_join_props(words(m));
    lemma_trim_set_props(collapse_whitespace(m), TrimSet::DotSpaceDash);
    if cleaned_stem(s).len() == 0 {
        reveal_strlit("streamkeep-video");
        let f = fallback_title();
        assert(is_single_spaced(f));
        assert(all_safe(f));
    }
}

/// Sanitizing a sanitized name changes nothing.
pub proof fn sanitize_file_stem_idempotent(s: Seq<char>)
    ensures
        sanitized_stem(sanitized_stem(s)) == sanitized_stem(s),
{
    sanitized_stem_is_clean(s);
    lemma_clean_fixed(sanitized_stem(s));
}

/// The name that `ensure_mp4_extension` returns ends in `.mp4`, and
/// applying `ensure_mp4_extension` to it again gives it back unchanged.
pub proof fn ensure_mp4_extension_idempotent(s: Seq<char>)
    ensures
        has_mp4_suffix(with_mp4_extension(sanitized_stem(s))),
        with_mp4_extension(sanitized_stem(with_mp4_extension(sanitized_stem(s))))
            == with_mp4_extension(sanitized_stem(s)),
{
    reveal_strlit(".mp4");
    let y = sanitized_stem(s);
    sanitized_stem_is_clean(s);
    if has_mp4_suffix(y) {
        lemma_clean_fixed(y);
    } else {
        let z = y + ".mp4"@;
        assert(z[z.len() - 4] == '.');
        assert(z[z.len() - 3] == 'm');
        assert(z[z.len() - 2] == 'p');
        assert(z[z.len() - 1] == '4');
        assert(z[0] == y[0]);
        assert forall|k: int| 0 <= k < z.len() implies is_safe_char(#[trigger] z[k]) by {
            if k < y.len() {
                assert(z[k] == y[k]);
            }
        }
        assert forall|k: int| 0 <= k < z.len() && is_unicode_whitespace(#[trigger] z[k]) implies z[k]
            == ' ' by {
            if k < y.len() {
                assert(z[k] == y[k]);
            }
        }
        assert forall|i: int, k: int| 0 <= i && k == i + 1 && k < z.len() implies !(
        is_unicode_whitespace(#[trigger] z[i]) && is_unicode_whitespace(#[trigger] z[k])) by {
            if k < y.len() {
                assert(z[i] == y[i]);
                assert(z[k] == y[k]);
            } else if i == y.len() - 1 {
                assert(z[i] == y[y.len() - 1]);
            }
        }
        assert(is_clean_stem(z));
        lemma_clean_fixed(z);
    }
}

} // verus!
