//! Character-sequence primitives: matching, replacing, trimming and
//! case folding, each stated over `Seq<char>`.
use vstd::prelude::*;
use vstd::string::StringExecFns;

verus! {

// ---------------------------------------------------------------------
// Conversions between `&str`, `String` and `Vec<char>`
// ---------------------------------------------------------------------

/// Appends one character to a string (`String::push`).
#[verifier::external_body]
pub(crate) fn push_char(s: &mut String, c: char)
    ensures
        final(s)@ == old(s)@.push(c),
{
    s.push(c);
}

/// The characters of a string slice, in order.
pub fn chars_of(s: &str) -> (v: Vec<char>)
    ensures
        v@ == s@,
{
    let mut v: Vec<char> = Vec::new();
    for c in it: s.chars()
        invariant
            v@ == it.seq().take(it.index() as int),
            it.seq() == s@,
    {
        v.push(c);
    }
    v
}

/// A string holding exactly the given characters.
pub fn string_of(v: &Vec<char>) -> (s: String)
    ensures
        s@ == v@,
{
    let mut s = String::new();
    let mut i: usize = 0;
    while i < v.len()
        invariant
            i <= v.len(),
            s@ == v@.take(i as int),
        decreases v.len() - i,
    {
        push_char(&mut s, v[i]);
        assert(v@.take(i as int + 1) =~= v@.take(i as int).push(v@[i as int]));
        i = i + 1;
    }
    assert(v@.take(v.len() as int) =~= v@);
    s
}

/// Appends the characters of `v` to `out`.
pub fn push_chars(out: &mut Vec<char>, v: &Vec<char>)
    ensures
        final(out)@ == old(out)@ + v@,
{
    let mut i: usize = 0;
    while i < v.len()
        invariant
            i <= v.len(),
            out@ == old(out)@ + v@.take(i as int),
        decreases v.len() - i,
    {
        out.push(v[i]);
        assert(v@.take(i as int + 1) =~= v@.take(i as int).push(v@[i as int]));
        i = i + 1;
    }
    assert(v@.take(v.len() as int) =~= v@);
}

// ---------------------------------------------------------------------
// Matching
// ---------------------------------------------------------------------

/// `pat` occurs in `s` starting at position `i`.
pub open spec fn occurs_at(s: Seq<char>, pat: Seq<char>, i: int) -> bool {
    0 <= i && i + pat.len() <= s.len() && s.subrange(i, i + pat.len()) == pat
}

/// `pat` occurs somewhere in `s` (`str::contains` with a string pattern).
pub open spec fn contains(s: Seq<char>, pat: Seq<char>) -> bool {
    exists|i: int| occurs_at(s, pat, i)
}

/// `s` begins with `pat`.
pub open spec fn starts_with(s: Seq<char>, pat: Seq<char>) -> bool {
    occurs_at(s, pat, 0)
}

/// Position of the first occurrence of `pat` in `s` at or after `from`.
pub open spec fn first_occurrence_from(s: Seq<char>, pat: Seq<char>, from: int) -> Option<int>
    decreases s.len() + 1 - from,
{
    if from < 0 || from + pat.len() > s.len() {
        None
    } else if occurs_at(s, pat, from) {
        Some(from)
    } else {
        first_occurrence_from(s, pat, from + 1)
    }
}

/// Position of the first occurrence of `pat` in `s` (`str::find`).
pub open spec fn first_occurrence(s: Seq<char>, pat: Seq<char>) -> Option<int> {
    first_occurrence_from(s, pat, 0)
}

pub proof fn lemma_first_occurrence_from(s: Seq<char>, pat: Seq<char>, from: int)
    requires
        0 <= from,
    ensures
        match first_occurrence_from(s, pat, from) {
            Some(i) => from <= i && occurs_at(s, pat, i) && forall|j: int|
                from <= j < i ==> !occurs_at(s, pat, j),
            None => forall|j: int| from <= j ==> !occurs_at(s, pat, j),
        },
    decreases s.len() + 1 - from,
{
    if from + pat.len() > s.len() {
    } else if occurs_at(s, pat, from) {
    } else {
        lemma_first_occurrence_from(s, pat, from + 1);
    }
}

/// Whether `pat` occurs in `s` at position `i`.
pub fn occurs_at_exec(s: &Vec<char>, pat: &Vec<char>, i: usize) -> (b: bool)
    ensures
        b == occurs_at(s@, pat@, i as int),
{
    if i > s.len() || pat.len() > s.len() - i {
        return false;
    }
    let mut k: usize = 0;
    while k < pat.len()
        invariant
            k <= pat.len(),
            i + pat.len() <= s.len(),
            forall|j: int| 0 <= j < k ==> s@[i + j] == pat@[j],
        decreases pat.len() - k,
    {
        if s[i + k] != pat[k] {
            assert(s@.subrange(i as int, i + pat.len())[k as int] != pat@[k as int]);
            return false;
        }
        k = k + 1;
    }
    assert(s@.subrange(i as int, i + pat.len()) =~= pat@);
    true
}

/// Position of the first occurrence of `pat` in `s` at or after `from`.
pub fn find_from(s: &Vec<char>, pat: &Vec<char>, from: usize) -> (r: Option<usize>)
    ensures
        match r {
            Some(i) => first_occurrence_from(s@, pat@, from as int) == Some(i as int),
            None => first_occurrence_from(s@, pat@, from as int) is None,
        },
{
    if pat.len() == 0 {
        if from <= s.len() {
            assert(s@.subrange(from as int, from as int) =~= pat@);
            return Some(from);
        }
        return None;
    }
    let mut i = from;
    while i <= s.len() && pat.len() <= s.len() - i
        invariant
            from <= i,
            pat.len() > 0,
            first_occurrence_from(s@, pat@, from as int) == first_occurrence_from(
                s@,
                pat@,
                i as int,
            ),
        decreases s.len() + 1 - i,
    {
        if occurs_at_exec(s, pat, i) {
            return Some(i);
        }
        i = i + 1;
    }
    None
}

/// Whether `pat` occurs in `s`.
pub fn contains_chars(s: &Vec<char>, pat: &Vec<char>) -> (b: bool)
    ensures
        b == contains(s@, pat@),
{
    let r = find_from(s, pat, 0);
    proof {
        lemma_first_occurrence_from(s@, pat@, 0);
    }
    r.is_some()
}

/// `str::contains` for a string pattern.
pub fn str_contains(s: &str, pat: &str) -> (b: bool)
    ensures
        b == contains(s@, pat@),
{
    let sv = chars_of(s);
    let pv = chars_of(pat);
    contains_chars(&sv, &pv)
}

/// `str::starts_with` for a string pattern.
pub fn str_starts_with(s: &str, pat: &str) -> (b: bool)
    ensures
        b == starts_with(s@, pat@),
{
    let sv = chars_of(s);
    let pv = chars_of(pat);
    occurs_at_exec(&sv, &pv, 0)
}

// ---------------------------------------------------------------------
// Replacing
// ---------------------------------------------------------------------

/// `str::replace`: every non-overlapping occurrence of `from`, scanned
/// left to right, replaced by `to`.  An empty `from` matches before every
/// character and at the end, as in std.
pub open spec fn replace_all(s: Seq<char>, from: Seq<char>, to: Seq<char>) -> Seq<char>
    decreases s.len(),
{
    if from.len() == 0 {
        if s.len() == 0 {
            to
        } else {
            to + seq![s[0]] + replace_all(s.drop_first(), from, to)
        }
    } else if s.len() == 0 {
        Seq::empty()
    } else if occurs_at(s, from, 0) {
        to + replace_all(s.skip(from.len() as int), from, to)
    } else {
        seq![s[0]] + replace_all(s.drop_first(), from, to)
    }
}

/// Each occurrence of the character `c` in `s` replaced by `t`.
pub open spec fn replace_char(s: Seq<char>, c: char, t: Seq<char>) -> Seq<char>
    decreases s.len(),
{
    if s.len() == 0 {
        Seq::empty()
    } else {
        (if s[0] == c {
            t
        } else {
            seq![s[0]]
        }) + replace_char(s.drop_first(), c, t)
    }
}

/// Replacing a one-character pattern replaces each of its occurrences.
pub proof fn lemma_replace_all_char(s: Seq<char>, c: char, t: Seq<char>)
    ensures
        replace_all(s, seq![c], t) == replace_char(s, c, t),
    decreases s.len(),
{
    if s.len() > 0 {
        lemma_replace_all_char(s.drop_first(), c, t);
        assert(s.skip(1) =~= s.drop_first());
        if s[0] == c {
            assert(s.subrange(0, 1) =~= seq![c]);
        } else {
            assert(s.subrange(0, 1)[0] == s[0]);
        }
    }
}

/// Replacing a character in two texts one after the other.
pub proof fn lemma_replace_char_concat(a: Seq<char>, b: Seq<char>, c: char, t: Seq<char>)
    ensures
        replace_char(a + b, c, t) == replace_char(a, c, t) + replace_char(b, c, t),
    decreases a.len(),
{
    if a.len() == 0 {
        assert(a + b =~= b);
        assert(replace_char(a, c, t) + replace_char(b, c, t) =~= replace_char(b, c, t));
    } else {
        lemma_replace_char_concat(a.drop_first(), b, c, t);
        assert((a + b).drop_first() =~= a.drop_first() + b);
        assert((a + b)[0] == a[0]);
        let h = if a[0] == c {
            t
        } else {
            seq![a[0]]
        };
        assert(h + (replace_char(a.drop_first(), c, t) + replace_char(b, c, t)) =~= (h + replace_char(
            a.drop_first(),
            c,
            t,
        )) + replace_char(b, c, t));
    }
}

proof fn lemma_skip_occurs(s: Seq<char>, pat: Seq<char>, i: int)
    requires
        0 <= i <= s.len(),
    ensures
        occurs_at(s.skip(i), pat, 0) == occurs_at(s, pat, i),
{
    if i + pat.len() <= s.len() {
        assert(s.skip(i).subrange(0, pat.len() as int) =~= s.subrange(i, i + pat.len()));
    }
}

/// Replacing every `c` by a text without `d` leaves no `d`, when `d` is
/// `c` or does not occur to begin with.
pub proof fn lemma_replace_char_excludes(s: Seq<char>, c: char, to: Seq<char>, d: char)
    requires
        !to.contains(d),
        d == c || !s.contains(d),
    ensures
        !replace_all(s, seq![c], to).contains(d),
    decreases s.len(),
{
    let from = seq![c];
    if s.len() > 0 {
        let r = replace_all(s, from, to);
        if occurs_at(s, from, 0) {
            assert(s.skip(1) =~= s.drop_first());
            if !(d == c) {
                assert forall|k: int| 0 <= k < s.drop_first().len() implies s.drop_first()[k] != d by {
                    assert(s.drop_first()[k] == s[k + 1]);
                }
            }
            lemma_replace_char_excludes(s.skip(1), c, to, d);
            let t = replace_all(s.skip(1), from, to);
            assert(r == to + t);
            assert forall|k: int| 0 <= k < r.len() implies r[k] != d by {
                if k < to.len() {
                    assert(r[k] == to[k]);
                } else {
                    assert(r[k] == t[k - to.len()]);
                }
            }
        } else {
            assert(s.subrange(0, 1) =~= seq![s[0]]);
            assert(s[0] != c);
            if !(d == c) {
                assert forall|k: int| 0 <= k < s.drop_first().len() implies s.drop_first()[k] != d by {
                    assert(s.drop_first()[k] == s[k + 1]);
                }
                assert(s[0] != d);
            }
            lemma_replace_char_excludes(s.drop_first(), c, to, d);
            let t = replace_all(s.drop_first(), from, to);
            assert(r == seq![s[0]] + t);
            assert forall|k: int| 0 <= k < r.len() implies r[k] != d by {
                if k > 0 {
                    assert(r[k] == t[k - 1]);
                }
            }
        }
    }
}

/// `str::replace` over character vectors.
pub fn replace_chars(s: &Vec<char>, from: &Vec<char>, to: &Vec<char>) -> (r: Vec<char>)
    ensures
        r@ == replace_all(s@, from@, to@),
{
    let mut out: Vec<char> = Vec::new();
    let mut i: usize = 0;
    assert(s@.skip(0) =~= s@);
    if from.len() == 0 {
        while i < s.len()
            invariant
                i <= s.len(),
                from@.len() == 0,
                out@ + replace_all(s@.skip(i as int), from@, to@) == replace_all(s@, from@, to@),
            decreases s.len() - i,
        {
            let ghost rest = s@.skip(i as int);
            assert(rest.drop_first() =~= s@.skip(i + 1));
            push_chars(&mut out, to);
            out.push(s[i]);
            assert(out@ + replace_all(s@.skip(i + 1), from@, to@) =~= old_out_plus(
                out@,
                replace_all(s@.skip(i + 1), from@, to@),
            ));
            i = i + 1;
        }
        push_chars(&mut out, to);
        assert(s@.skip(i as int) =~= Seq::<char>::empty());
        assert(out@ =~= replace_all(s@, from@, to@));
        return out;
    }
    while i < s.len()
        invariant
            i <= s.len(),
            from@.len() > 0,
            out@ + replace_all(s@.skip(i as int), from@, to@) == replace_all(s@, from@, to@),
        decreases s.len() - i,
    {
        let ghost rest = s@.skip(i as int);
        proof {
            lemma_skip_occurs(s@, from@, i as int);
        }
        if occurs_at_exec(s, from, i) {
            let ghost before = out@;
            push_chars(&mut out, to);
            assert(rest.skip(from@.len() as int) =~= s@.skip(i + from@.len()));
            assert(before + (to@ + replace_all(s@.skip(i + from@.len()), from@, to@)) =~= out@
                + replace_all(s@.skip(i + from@.len()), from@, to@));
            i = i + from.len();
        } else {
            let ghost before = out@;
            out.push(s[i]);
            assert(rest.drop_first() =~= s@.skip(i + 1));
            assert(before + (seq![s@[i as int]] + replace_all(s@.skip(i + 1), from@, to@))
                =~= out@ + replace_all(s@.skip(i + 1), from@, to@));
            i = i + 1;
        }
    }
    assert(s@.skip(i as int) =~= Seq::<char>::empty());
    assert(out@ =~= out@ + replace_all(s@.skip(i as int), from@, to@));
    out
}

spec fn old_out_plus(a: Seq<char>, b: Seq<char>) -> Seq<char> {
    a + b
}

/// `str::replace` for string patterns.
pub fn str_replace(s: &str, from: &str, to: &str) -> (r: String)
    ensures
        r@ == replace_all(s@, from@, to@),
{
    let sv = chars_of(s);
    let fv = chars_of(from);
    let tv = chars_of(to);
    let rv = replace_chars(&sv, &fv, &tv);
    string_of(&rv)
}


// ---------------------------------------------------------------------
// Whitespace and trimming
// ---------------------------------------------------------------------

/// `char::is_whitespace`: the Unicode `White_Space` property.
pub open spec fn is_whitespace(c: char) -> bool {
    ||| ('\u{9}' <= c && c <= '\u{d}')
    ||| c == ' '
    ||| c == '\u{85}'
    ||| c == '\u{a0}'
    ||| c == '\u{1680}'
    ||| ('\u{2000}' <= c && c <= '\u{200a}')
    ||| c == '\u{2028}'
    ||| c == '\u{2029}'
    ||| c == '\u{202f}'
    ||| c == '\u{205f}'
    ||| c == '\u{3000}'
}

pub fn is_whitespace_exec(c: char) -> (b: bool)
    ensures
        b == is_whitespace(c),
{
    ('\u{9}' <= c && c <= '\u{d}') || c == ' ' || c == '\u{85}' || c == '\u{a0}' || c
        == '\u{1680}' || ('\u{2000}' <= c && c <= '\u{200a}') || c == '\u{2028}' || c
        == '\u{2029}' || c == '\u{202f}' || c == '\u{205f}' || c == '\u{3000}'
}

/// `s` with leading whitespace removed.
pub open spec fn trim_start(s: Seq<char>) -> Seq<char>
    decreases s.len(),
{
    if s.len() > 0 && is_whitespace(s[0]) {
        trim_start(s.drop_first())
    } else {
        s
    }
}

/// `s` with trailing whitespace removed.
pub open spec fn trim_end(s: Seq<char>) -> Seq<char>
    decreases s.len(),
{
    if s.len() > 0 && is_whitespace(s.last()) {
        trim_end(s.drop_last())
    } else {
        s
    }
}

/// `str::trim`.
pub open spec fn trim(s: Seq<char>) -> Seq<char> {
    trim_end(trim_start(s))
}

/// `str::trim` over character vectors.
pub fn trim_chars(s: &Vec<char>) -> (r: Vec<char>)
    ensures
        r@ == trim(s@),
{
    let n = s.len();
    let mut i: usize = 0;
    assert(s@.skip(0) =~= s@);
    while i < n && is_whitespace_exec(s[i])
        invariant
            i <= n,
            n == s@.len(),
            trim_start(s@.skip(i as int)) == trim_start(s@),
        decreases n - i,
    {
        assert(s@.skip(i as int).drop_first() =~= s@.skip(i + 1));
        i = i + 1;
    }
    let mut j: usize = n;
    assert(trim_start(s@) == s@.skip(i as int));
    assert(s@.skip(i as int) =~= s@.subrange(i as int, n as int));
    while j > i && is_whitespace_exec(s[j - 1])
        invariant
            i <= j <= n,
            n == s@.len(),
            trim_start(s@) == s@.subrange(i as int, n as int),
            trim_end(s@.subrange(i as int, j as int)) == trim(s@),
        decreases j,
    {
        assert(s@.subrange(i as int, j as int).drop_last() =~= s@.subrange(i as int, j - 1));
        j = j - 1;
    }
    let mut r: Vec<char> = Vec::new();
    let mut k = i;
    while k < j
        invariant
            i <= k <= j <= n,
            n == s@.len(),
            r@ == s@.subrange(i as int, k as int),
        decreases j - k,
    {
        r.push(s[k]);
        assert(s@.subrange(i as int, k + 1) =~= s@.subrange(i as int, k as int).push(s@[k as int]));
        k = k + 1;
    }
    r
}

/// `str::trim` producing an owned string.
pub fn str_trim(s: &str) -> (r: String)
    ensures
        r@ == trim(s@),
{
    let v = chars_of(s);
    let t = trim_chars(&v);
    string_of(&t)
}

// ---------------------------------------------------------------------
// Case folding
// ---------------------------------------------------------------------

/// What `str::to_lowercase` returns for the given characters.
pub uninterp spec fn lowercase(s: Seq<char>) -> Seq<char>;

/// `str::to_ascii_uppercase` on one character: 'a' to 'z' become 'A' to
/// 'Z', every other character stays as it is.
pub open spec fn ascii_upper_char(c: char) -> char {
    if 'a' <= c && c <= 'z' {
        ((c as int) - 32) as char
    } else {
        c
    }
}

/// `str::to_ascii_uppercase`.
pub open spec fn ascii_uppercased(s: Seq<char>) -> Seq<char> {
    s.map_values(|c: char| ascii_upper_char(c))
}

/// `str::to_lowercase`.  Besides naming the result, the contract claims
/// that upper-casing the ASCII letters of the text first gives the same
/// result: lowercase is defined by the Unicode lowercase mapping, which
/// takes 'A' to 'Z' to 'a' to 'z', and the one mapping that depends on
/// context (final sigma) looks only at whether neighbouring letters are
/// cased, which an ASCII letter is in either case.
#[verifier::external_body]
pub(crate) fn to_lowercase(s: &str) -> (r: String)
    ensures
        r@ == lowercase(s@),
        r@ == lowercase(ascii_uppercased(s@)),
{
    s.to_lowercase()
}

// ---------------------------------------------------------------------
// Words: `split_whitespace` followed by `join(" ")`
// ---------------------------------------------------------------------

/// The maximal run of non-whitespace characters at the start of `s`.
pub open spec fn leading_word(s: Seq<char>) -> Seq<char>
    decreases s.len(),
{
    if s.len() > 0 && !is_whitespace(s[0]) {
        seq![s[0]] + leading_word(s.drop_first())
    } else {
        Seq::empty()
    }
}

pub proof fn lemma_leading_word_len(s: Seq<char>)
    ensures
        leading_word(s).len() <= s.len(),
        s.len() > 0 && !is_whitespace(s[0]) ==> leading_word(s).len() >= 1,
    decreases s.len(),
{
    if s.len() > 0 && !is_whitespace(s[0]) {
        lemma_leading_word_len(s.drop_first());
    }
}

/// `str::split_whitespace`: the maximal non-whitespace runs, in order.
pub open spec fn words(s: Seq<char>) -> Seq<Seq<char>>
    decreases s.len(),
{
    if s.len() == 0 {
        Seq::empty()
    } else if is_whitespace(s[0]) {
        words(s.drop_first())
    } else {
        proof {
            lemma_leading_word_len(s);
        }
        seq![leading_word(s)] + words(s.skip(leading_word(s).len() as int))
    }
}

/// `join` of a list of strings with a separator.
pub open spec fn join(parts: Seq<Seq<char>>, sep: Seq<char>) -> Seq<char>
    decreases parts.len(),
{
    if parts.len() == 0 {
        Seq::empty()
    } else if parts.len() == 1 {
        parts[0]
    } else {
        join(parts.drop_last(), sep) + sep + parts.last()
    }
}

/// The words of `s` joined by single spaces.
pub open spec fn collapse_whitespace(s: Seq<char>) -> Seq<char> {
    join(words(s), seq![' '])
}

proof fn lemma_leading_word_run(s: Seq<char>, i: int, j: int)
    requires
        0 <= i <= j <= s.len(),
        forall|k: int| i <= k < j ==> !is_whitespace(s[k]),
        j == s.len() || is_whitespace(s[j]),
    ensures
        leading_word(s.skip(i)) == s.subrange(i, j),
    decreases j - i,
{
    if i < j {
        lemma_leading_word_run(s, i + 1, j);
        assert(s.skip(i).drop_first() =~= s.skip(i + 1));
        assert(s.subrange(i, j) =~= seq![s[i]] + s.subrange(i + 1, j));
    } else {
        assert(s.subrange(i, j) =~= Seq::<char>::empty());
    }
}

/// No whitespace at either end, never two whitespace characters in a row,
/// and no whitespace but the plain space.
pub open spec fn tidy(s: Seq<char>) -> bool {
    &&& (s.len() > 0 ==> !is_whitespace(s[0]) && !is_whitespace(s.last()))
    &&& forall|i: int| 0 <= i < s.len() - 1 ==> !(is_whitespace(#[trigger] s[i]) && is_whitespace(s[i + 1]))
    &&& forall|i: int| 0 <= i < s.len() && is_whitespace(#[trigger] s[i]) ==> s[i] == ' '
}

/// A word: one or more characters, none of them whitespace.
pub open spec fn is_word(w: Seq<char>) -> bool {
    w.len() > 0 && forall|i: int| 0 <= i < w.len() ==> !is_whitespace(#[trigger] w[i])
}

proof fn lemma_leading_word_chars(s: Seq<char>)
    ensures
        forall|i: int| 0 <= i < leading_word(s).len() ==> !is_whitespace(#[trigger] leading_word(s)[i]),
    decreases s.len(),
{
    if s.len() > 0 && !is_whitespace(s[0]) {
        lemma_leading_word_chars(s.drop_first());
        let r = leading_word(s.drop_first());
        assert forall|i: int| 0 <= i < leading_word(s).len() implies !is_whitespace(#[trigger] leading_word(s)[i]) by {
            if i > 0 {
                assert(leading_word(s)[i] == r[i - 1]);
            }
        }
    }
}

/// Every piece that `split_whitespace` gives is a word.
pub proof fn lemma_words_are_words(s: Seq<char>)
    ensures
        forall|k: int| 0 <= k < words(s).len() ==> is_word(#[trigger] words(s)[k]),
    decreases s.len(),
{
    if s.len() > 0 {
        if is_whitespace(s[0]) {
            lemma_words_are_words(s.drop_first());
            assert(words(s) == words(s.drop_first()));
        } else {
            lemma_leading_word_len(s);
            lemma_leading_word_chars(s);
            let rest = s.skip(leading_word(s).len() as int);
            lemma_words_are_words(rest);
            let ws = words(s);
            assert(ws == seq![leading_word(s)] + words(rest));
            assert forall|k: int| 0 <= k < ws.len() implies is_word(#[trigger] ws[k]) by {
                if k > 0 {
                    assert(ws[k] == words(rest)[k - 1]);
                } else {
                    let w = leading_word(s);
                    assert(ws[0] == w);
                    assert forall|i: int| 0 <= i < w.len() implies !is_whitespace(#[trigger] w[i]) by {}
                }
            }
        }
    }
}

/// Words joined by single spaces are tidy.
pub proof fn lemma_join_words_tidy(ws: Seq<Seq<char>>)
    requires
        forall|k: int| 0 <= k < ws.len() ==> is_word(#[trigger] ws[k]),
    ensures
        tidy(join(ws, seq![' '])),
        ws.len() > 0 ==> join(ws, seq![' ']).len() > 0,
    decreases ws.len(),
{
    if ws.len() == 1 {
        assert(is_word(ws[0]));
        let w = ws[0];
        assert(join(ws, seq![' ']) == w);
        assert(w.last() == w[w.len() - 1]);
    } else if ws.len() > 1 {
        let p = ws.drop_last();
        assert forall|k: int| 0 <= k < p.len() implies is_word(#[trigger] p[k]) by {
            assert(p[k] == ws[k]);
        }
        lemma_join_words_tidy(p);
        let a = join(p, seq![' ']);
        let w = ws.last();
        assert(is_word(ws[ws.len() - 1]));
        let r = a + seq![' '] + w;
        assert(join(ws, seq![' ']) == r);
        assert(r[0] == a[0]);
        assert(r.last() == w[w.len() - 1]);
        assert forall|i: int| 0 <= i < r.len() - 1 implies !(is_whitespace(#[trigger] r[i]) && is_whitespace(r[i + 1])) by {
            if i < a.len() - 1 {
                assert(r[i] == a[i] && r[i + 1] == a[i + 1]);
            } else if i == a.len() - 1 {
                assert(r[i] == a[a.len() - 1]);
            } else {
                assert(r[i + 1] == w[i + 1 - a.len() - 1]);
            }
        }
        assert forall|i: int| 0 <= i < r.len() && is_whitespace(#[trigger] r[i]) implies r[i] == ' ' by {
            if i < a.len() {
                assert(r[i] == a[i]);
            } else if i > a.len() {
                assert(r[i] == w[i - a.len() - 1]);
            }
        }
    }
}

/// The leading word is the text up to the first whitespace character.
proof fn lemma_leading_word_prefix(s: Seq<char>)
    ensures
        leading_word(s) == s.take(leading_word(s).len() as int),
        leading_word(s).len() < s.len() ==> is_whitespace(s[leading_word(s).len() as int]),
    decreases s.len(),
{
    lemma_leading_word_len(s);
    if s.len() > 0 && !is_whitespace(s[0]) {
        let t = s.drop_first();
        lemma_leading_word_prefix(t);
        lemma_leading_word_len(t);
        assert(s.take(leading_word(s).len() as int) =~= seq![s[0]] + t.take(leading_word(t).len() as int));
        if leading_word(s).len() < s.len() {
            assert(s[leading_word(s).len() as int] == t[leading_word(t).len() as int]);
        }
    } else {
        assert(s.take(0) =~= Seq::<char>::empty());
    }
}

/// Joining a word in front of other words puts one separator between them.
pub proof fn lemma_join_front(w: Seq<char>, ws: Seq<Seq<char>>, sep: Seq<char>)
    requires
        ws.len() > 0,
    ensures
        join(seq![w] + ws, sep) == w + sep + join(ws, sep),
    decreases ws.len(),
{
    let all = seq![w] + ws;
    assert(all.drop_last() =~= seq![w] + ws.drop_last());
    assert(all.last() == ws.last());
    if ws.len() == 1 {
        assert(seq![w] + ws.drop_last() =~= seq![w]);
        assert(join(seq![w], sep) == w);
    } else {
        lemma_join_front(w, ws.drop_last(), sep);
        assert(w + sep + join(ws.drop_last(), sep) + sep + ws.last() =~= w + sep + (join(ws.drop_last(), sep) + sep + ws.last()));
    }
}

/// A tidy text is its own words joined by single spaces.
pub proof fn lemma_collapse_tidy(s: Seq<char>)
    requires
        tidy(s),
    ensures
        collapse_whitespace(s) == s,
    decreases s.len(),
{
    if s.len() == 0 {
        assert(words(s) =~= Seq::<Seq<char>>::empty());
    } else {
        let w = leading_word(s);
        lemma_leading_word_len(s);
        lemma_leading_word_prefix(s);
        let n = w.len() as int;
        let rest = s.skip(n);
        assert(words(s) == seq![w] + words(rest));
        if n == s.len() {
            assert(rest.len() == 0);
            assert(words(rest) =~= Seq::<Seq<char>>::empty());
            assert(seq![w] + words(rest) =~= seq![w]);
            assert(w =~= s);
        } else {
            assert(is_whitespace(s[n]));
            assert(s[n] == ' ');
            assert(n + 1 < s.len()) by {
                if n + 1 == s.len() {
                    assert(s.last() == s[n]);
                }
            }
            assert(!is_whitespace(s[n + 1]));
            let t = rest.drop_first();
            assert(t =~= s.skip(n + 1));
            assert(rest[0] == s[n]);
            assert(words(rest) == words(t));
            assert(t[0] == s[n + 1]);
            assert(t.last() == s.last());
            assert forall|i: int| 0 <= i < t.len() - 1 implies !(is_whitespace(#[trigger] t[i]) && is_whitespace(t[i + 1])) by {
                assert(t[i] == s[n + 1 + i] && t[i + 1] == s[n + 1 + i + 1]);
            }
            assert forall|i: int| 0 <= i < t.len() && is_whitespace(#[trigger] t[i]) implies t[i] == ' ' by {
                assert(t[i] == s[n + 1 + i]);
            }
            lemma_collapse_tidy(t);
            lemma_leading_word_len(t);
            assert(words(t).len() > 0);
            lemma_join_front(w, words(t), seq![' ']);
            assert(s =~= w + seq![' '] + t);
        }
    }
}

/// Trimming a tidy text leaves it as it is.
pub proof fn lemma_trim_tidy(s: Seq<char>)
    requires
        tidy(s),
    ensures
        trim(s) == s,
{
    assert(trim_start(s) == s);
}

/// `s.split_whitespace().collect::<Vec<_>>().join(" ")`.
pub fn collapse_whitespace_chars(s: &Vec<char>) -> (r: Vec<char>)
    ensures
        r@ == collapse_whitespace(s@),
{
    let n = s.len();
    let mut out: Vec<char> = Vec::new();
    let mut i: usize = 0;
    let ghost mut done: Seq<Seq<char>> = Seq::empty();
    assert(s@.skip(0) =~= s@);
    while i < n
        invariant
            i <= n,
            n == s@.len(),
            words(s@) == done + words(s@.skip(i as int)),
            out@ == join(done, seq![' ']),
            (done.len() == 0) <==> (out@.len() == 0),
        decreases n - i,
    {
        if is_whitespace_exec(s[i]) {
            assert(s@.skip(i as int).drop_first() =~= s@.skip(i + 1));
            i = i + 1;
        } else {
            let mut j = i;
            while j < n && !is_whitespace_exec(s[j])
                invariant
                    i <= j <= n,
                    n == s@.len(),
                    forall|k: int| i <= k < j ==> !is_whitespace(s@[k]),
                decreases n - j,
            {
                j = j + 1;
            }
            proof {
                lemma_leading_word_run(s@, i as int, j as int);
                let rest = s@.skip(i as int);
                assert(rest[0] == s@[i as int]);
                assert(rest.skip(leading_word(rest).len() as int) =~= s@.skip(j as int));
                assert(words(rest) == seq![s@.subrange(i as int, j as int)] + words(
                    s@.skip(j as int),
                ));
            }
            let ghost old_done = done;
            if out.len() > 0 {
                out.push(' ');
            }
            let mut k = i;
            let ghost base = out@;
            while k < j
                invariant
                    i <= k <= j <= n,
                    n == s@.len(),
                    out@ == base + s@.subrange(i as int, k as int),
                decreases j - k,
            {
                out.push(s[k]);
                assert(s@.subrange(i as int, k + 1) =~= s@.subrange(i as int, k as int).push(
                    s@[k as int],
                ));
                k = k + 1;
            }
            proof {
                let w = s@.subrange(i as int, j as int);
                done = old_done.push(w);
                assert(done.drop_last() =~= old_done);
                if old_done.len() == 0 {
                    assert(base =~= Seq::<char>::empty());
                    assert(out@ =~= w);
                } else {
                    assert(out@ =~= join(old_done, seq![' ']) + seq![' '] + w);
                }
                assert(old_done + (seq![w] + words(s@.skip(j as int))) =~= done + words(
                    s@.skip(j as int),
                ));
            }
            i = j;
        }
    }
    proof {
        assert(s@.skip(n as int) =~= Seq::<char>::empty());
        assert(done + Seq::<Seq<char>>::empty() =~= done);
    }
    out
}


/// `str::split_whitespace`, collected.
pub fn split_words(s: &Vec<char>) -> (r: Vec<Vec<char>>)
    ensures
        r@.map_values(|w: Vec<char>| w@) == words(s@),
{
    let n = s.len();
    let mut out: Vec<Vec<char>> = Vec::new();
    let mut i: usize = 0;
    assert(s@.skip(0) =~= s@);
    assert(out@.map_values(|w: Vec<char>| w@) =~= Seq::<Seq<char>>::empty());
    while i < n
        invariant
            i <= n,
            n == s@.len(),
            words(s@) == out@.map_values(|w: Vec<char>| w@) + words(s@.skip(i as int)),
        decreases n - i,
    {
        if is_whitespace_exec(s[i]) {
            assert(s@.skip(i as int).drop_first() =~= s@.skip(i + 1));
            i = i + 1;
        } else {
            let mut j = i;
            while j < n && !is_whitespace_exec(s[j])
                invariant
                    i <= j <= n,
                    n == s@.len(),
                    forall|k: int| i <= k < j ==> !is_whitespace(s@[k]),
                decreases n - j,
            {
                j = j + 1;
            }
            proof {
                lemma_leading_word_run(s@, i as int, j as int);
                let rest = s@.skip(i as int);
                assert(rest[0] == s@[i as int]);
                assert(rest.skip(leading_word(rest).len() as int) =~= s@.skip(j as int));
                assert(words(rest) == seq![s@.subrange(i as int, j as int)] + words(
                    s@.skip(j as int),
                ));
            }
            let ghost before = out@.map_values(|w: Vec<char>| w@);
            let mut w: Vec<char> = Vec::new();
            let mut k = i;
            while k < j
                invariant
                    i <= k <= j <= n,
                    n == s@.len(),
                    w@ == s@.subrange(i as int, k as int),
                decreases j - k,
            {
                w.push(s[k]);
                assert(s@.subrange(i as int, k + 1) =~= s@.subrange(i as int, k as int).push(
                    s@[k as int],
                ));
                k = k + 1;
            }
            let ghost wv = w@;
            out.push(w);
            proof {
                assert(out@.map_values(|w: Vec<char>| w@) =~= before.push(wv));
                assert(before + (seq![wv] + words(s@.skip(j as int))) =~= before.push(wv) + words(
                    s@.skip(j as int),
                ));
            }
            i = j;
        }
    }
    proof {
        assert(s@.skip(n as int) =~= Seq::<char>::empty());
    }
    out
}

// ---------------------------------------------------------------------
// Equality and literals
// ---------------------------------------------------------------------

/// Equality of two character vectors.
pub fn chars_eq(a: &Vec<char>, b: &Vec<char>) -> (r: bool)
    ensures
        r == (a@ == b@),
{
    if a.len() != b.len() {
        return false;
    }
    let mut i: usize = 0;
    while i < a.len()
        invariant
            i <= a.len(),
            a.len() == b.len(),
            forall|k: int| 0 <= k < i ==> a@[k] == b@[k],
        decreases a.len() - i,
    {
        if a[i] != b[i] {
            return false;
        }
        i = i + 1;
    }
    assert(a@ =~= b@);
    true
}

/// Whether the characters of `a` equal those of the string slice `b`.
pub fn chars_eq_str(a: &Vec<char>, b: &str) -> (r: bool)
    ensures
        r == (a@ == b@),
{
    let bv = chars_of(b);
    chars_eq(a, &bv)
}

/// Replaces every occurrence of `from` by `to` in `s`.
pub fn replace_in(s: &Vec<char>, from: &str, to: &str) -> (r: Vec<char>)
    ensures
        r@ == replace_all(s@, from@, to@),
{
    let fv = chars_of(from);
    let tv = chars_of(to);
    replace_chars(s, &fv, &tv)
}

/// Whether `pat` occurs in `s`.
pub fn contains_str(s: &Vec<char>, pat: &str) -> (b: bool)
    ensures
        b == contains(s@, pat@),
{
    let pv = chars_of(pat);
    contains_chars(s, &pv)
}

/// The lowercase form of a character vector.
pub fn lowercase_chars(s: &Vec<char>) -> (r: Vec<char>)
    ensures
        r@ == lowercase(s@),
        r@ == lowercase(ascii_uppercased(s@)),
{
    let st = string_of(s);
    let l = to_lowercase(st.as_str());
    chars_of(l.as_str())
}


// ---------------------------------------------------------------------
// Decimal numbers
// ---------------------------------------------------------------------

pub open spec fn is_ascii_digit(c: char) -> bool {
    '0' <= c && c <= '9'
}

pub open spec fn all_digits(s: Seq<char>) -> bool {
    forall|i: int| 0 <= i < s.len() ==> is_ascii_digit(#[trigger] s[i])
}

/// The value of a string of ASCII digits.
pub open spec fn digits_value(s: Seq<char>) -> nat
    decreases s.len(),
{
    if s.len() == 0 {
        0
    } else {
        digits_value(s.drop_last()) * 10 + ((s.last() as int) - ('0' as int)) as nat
    }
}

/// What `str::parse` gives for an unsigned integer type before the range
/// check: an optional `+`, then one or more ASCII digits.
pub open spec fn unsigned_value(s: Seq<char>) -> Option<nat> {
    let d = if s.len() > 0 && s[0] == '+' {
        s.drop_first()
    } else {
        s
    };
    if d.len() > 0 && all_digits(d) {
        Some(digits_value(d))
    } else {
        None
    }
}

/// What `str::parse` gives for a signed integer type before the range
/// check: an optional `+` or `-`, then one or more ASCII digits.
pub open spec fn signed_value(s: Seq<char>) -> Option<int> {
    if s.len() > 0 && s[0] == '-' {
        match unsigned_value_digits(s.drop_first()) {
            Some(v) => Some(-v),
            None => None,
        }
    } else {
        match unsigned_value(s) {
            Some(v) => Some(v as int),
            None => None,
        }
    }
}

/// One or more ASCII digits and nothing else.
pub open spec fn unsigned_value_digits(s: Seq<char>) -> Option<nat> {
    if s.len() > 0 && all_digits(s) {
        Some(digits_value(s))
    } else {
        None
    }
}

/// `str::parse::<u32>`.
pub open spec fn parse_u32_spec(s: Seq<char>) -> Option<u32> {
    match unsigned_value(s) {
        Some(v) => if v <= u32::MAX {
            Some(v as u32)
        } else {
            None
        },
        None => None,
    }
}

/// `str::parse::<i32>`.
pub open spec fn parse_i32_spec(s: Seq<char>) -> Option<i32> {
    match signed_value(s) {
        Some(v) => if i32::MIN <= v <= i32::MAX {
            Some(v as i32)
        } else {
            None
        },
        None => None,
    }
}

proof fn lemma_digits_value_prefix(s: Seq<char>, i: int)
    requires
        0 <= i <= s.len(),
        all_digits(s),
    ensures
        digits_value(s.take(i)) <= digits_value(s),
    decreases s.len() - i,
{
    if i < s.len() {
        lemma_digits_value_prefix(s, i + 1);
        assert(s.take(i + 1).drop_last() =~= s.take(i));
    } else {
        assert(s.take(i) =~= s);
    }
}

/// Value of the ASCII digits `s[start..]`, or `None` when some character
/// is not a digit, the run is empty, or the value exceeds `limit`.
fn digits_at_most(s: &Vec<char>, start: usize, limit: u64) -> (r: Option<u64>)
    requires
        start <= s.len(),
        limit >= 9,
    ensures
        match r {
            Some(v) => {
                let d = s@.skip(start as int);
                &&& d.len() > 0
                &&& all_digits(d)
                &&& v == digits_value(d)
                &&& v <= limit
            },
            None => {
                let d = s@.skip(start as int);
                !(d.len() > 0 && all_digits(d) && digits_value(d) <= limit)
            },
        },
{
    let ghost d = s@.skip(start as int);
    if start == s.len() {
        return None;
    }
    let mut acc: u64 = 0;
    let mut i = start;
    while i < s.len()
        invariant
            start <= i <= s.len(),
            d == s@.skip(start as int),
            all_digits(d.take(i - start)),
            acc == digits_value(d.take(i - start)),
            acc <= limit,
            limit >= 9,
        decreases s.len() - i,
    {
        let c = s[i];
        if !('0' <= c && c <= '9') {
            assert(d[i - start] == c);
            return None;
        }
        let digit = (c as u64) - ('0' as u64);
        if acc > (limit - digit) / 10 {
            proof {
                assert(d.take(i - start + 1).drop_last() =~= d.take(i - start));
                assert(digits_value(d.take(i - start + 1)) == acc * 10 + digit);
                assert(acc * 10 + digit > limit) by (nonlinear_arith)
                    requires
                        acc > (limit - digit) / 10,
                        digit <= 9,
                        limit >= 9,
                ;
                if all_digits(d) {
                    lemma_digits_value_prefix(d, i - start + 1);
                }
            }
            return None;
        }
        proof {
            assert(d.take(i - start + 1).drop_last() =~= d.take(i - start));
            assert(acc * 10 + digit <= limit) by (nonlinear_arith)
                requires
                    acc <= (limit - digit) / 10,
                    digit <= 9,
                    limit >= 9,
            ;
        }
        acc = acc * 10 + digit;
        i = i + 1;
        assert(all_digits(d.take(i - start)));
    }
    assert(d.take(i - start) =~= d);
    Some(acc)
}

/// `str::parse::<u32>` over a character vector.
pub fn parse_u32(s: &Vec<char>) -> (r: Option<u32>)
    ensures
        r == parse_u32_spec(s@),
{
    let start: usize = if s.len() > 0 && s[0] == '+' {
        1
    } else {
        0
    };
    assert(s@.skip(start as int) =~= (if s@.len() > 0 && s@[0] == '+' {
        s@.drop_first()
    } else {
        s@
    }));
    match digits_at_most(s, start, 4294967295) {
        Some(v) => Some(v as u32),
        None => None,
    }
}

/// `str::parse::<u64>`.
pub open spec fn parse_u64_spec(s: Seq<char>) -> Option<u64> {
    match unsigned_value(s) {
        Some(v) => if v <= u64::MAX {
            Some(v as u64)
        } else {
            None
        },
        None => None,
    }
}

/// `str::parse::<u64>` over a character vector.
pub fn parse_u64(s: &Vec<char>) -> (r: Option<u64>)
    ensures
        r == parse_u64_spec(s@),
{
    let start: usize = if s.len() > 0 && s[0] == '+' {
        1
    } else {
        0
    };
    assert(s@.skip(start as int) =~= (if s@.len() > 0 && s@[0] == '+' {
        s@.drop_first()
    } else {
        s@
    }));
    digits_at_most(s, start, 18446744073709551615)
}

/// `str::parse::<i32>` over a character vector.
pub fn parse_i32(s: &Vec<char>) -> (r: Option<i32>)
    ensures
        r == parse_i32_spec(s@),
{
    if s.len() > 0 && s[0] == '-' {
        assert(s@.skip(1) =~= s@.drop_first());
        match digits_at_most(s, 1, 2147483648) {
            Some(v) => Some((0 - (v as i64)) as i32),
            None => None,
        }
    } else {
        let start: usize = if s.len() > 0 && s[0] == '+' {
            1
        } else {
            0
        };
        assert(s@.skip(start as int) =~= (if s@.len() > 0 && s@[0] == '+' {
            s@.drop_first()
        } else {
            s@
        }));
        match digits_at_most(s, start, 2147483647) {
            Some(v) => Some(v as i32),
            None => None,
        }
    }
}

/// The decimal digits of a natural number, most significant first.
pub open spec fn decimal_digits(n: nat) -> Seq<char>
    decreases n,
{
    if n < 10 {
        seq![(('0' as nat) + n) as char]
    } else {
        decimal_digits(n / 10).push((('0' as nat) + n % 10) as char)
    }
}

/// The decimal form of an integer, as `Display` writes it.
pub open spec fn decimal(n: int) -> Seq<char> {
    if n < 0 {
        seq!['-'] + decimal_digits((-n) as nat)
    } else {
        decimal_digits(n as nat)
    }
}

fn digit_char(d: u64) -> (c: char)
    requires
        d < 10,
    ensures
        c == (('0' as nat) + d) as char,
{
    if d == 0 { '0' }
    else if d == 1 { '1' }
    else if d == 2 { '2' }
    else if d == 3 { '3' }
    else if d == 4 { '4' }
    else if d == 5 { '5' }
    else if d == 6 { '6' }
    else if d == 7 { '7' }
    else if d == 8 { '8' }
    else { '9' }
}

fn push_decimal_digits(out: &mut Vec<char>, n: u64)
    ensures
        final(out)@ == old(out)@ + decimal_digits(n as nat),
    decreases n,
{
    if n < 10 {
        out.push(digit_char(n));
    } else {
        push_decimal_digits(out, n / 10);
        out.push(digit_char(n % 10));
    }
}

/// Appends the decimal form of `n` to `out`.
pub fn push_decimal(out: &mut Vec<char>, n: i64)
    ensures
        final(out)@ == old(out)@ + decimal(n as int),
{
    if n < 0 {
        out.push('-');
        let m: u64 = if n == i64::MIN {
            9223372036854775808u64
        } else {
            (-n) as u64
        };
        let ghost mid = out@;
        push_decimal_digits(out, m);
        assert(out@ =~= old(out)@ + (seq!['-'] + decimal_digits(m as nat)));
    } else {
        push_decimal_digits(out, n as u64);
    }
}

/// Appends the decimal form of a count.
pub fn push_count(out: &mut Vec<char>, n: usize)
    ensures
        final(out)@ == old(out)@ + decimal(n as int),
{
    push_decimal_digits(out, n as u64);
}

/// The decimal form of `n` as a string.
pub fn decimal_string(n: i64) -> (r: String)
    ensures
        r@ == decimal(n as int),
{
    let mut v: Vec<char> = Vec::new();
    push_decimal(&mut v, n);
    assert(v@ =~= decimal(n as int));
    string_of(&v)
}

} // verus!
