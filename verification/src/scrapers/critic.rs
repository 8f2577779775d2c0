//! critic.de OV listings: the cinema list, language tags in titles, and
//! the showtime tables of a cinema's program page.
use crate::clock::{add_days, berlin_instant, berlin_to_utc, checked_date, date_before, date_plus_days, days_between, days_from, is_date_before, parse_time_with, parsed_time, time_parts, valid_date, CivilDate, TimeOfDay};
use crate::html::{attr_at, attr_at_exec, opts_view, select_attr, select_cells_under, select_text_under, selected_attr, selected_cells_under, selected_text_in, selected_text_under, strings_view};
use crate::models::{opt_view, Theater, TheaterV, Movie, MovieV, MovieWithScreenings, MovieWithScreeningsV, Screening, ScreeningV};
use crate::pattern::{all_captures, capture_group, groups_view, regex_group, regex_matches};
use crate::scrapers::uci::{first_of, first_text_in};
use crate::text::{chars_of, contains, contains_str, occurs_at, lowercase, lowercase_chars, parse_u32, parse_u32_spec, occurs_at_exec, push_chars, replace_all, replace_in, split_words, starts_with, string_of, trim, trim_chars, words};
use vstd::prelude::*;

verus! {

/// The title announces English subtitles (OmeU, OmengU or "english sub").
pub open spec fn title_has_english_subs(lower: Seq<char>) -> bool {
    contains(lower, "omeu"@) || contains(lower, "omengu"@) || contains(lower, "english sub"@)
}

/// The title announces German subtitles (OmU or "OV w/ sub") and not English ones.
pub open spec fn title_has_omu(lower: Seq<char>) -> bool {
    (contains(lower, "omu"@) || contains(lower, "ov w/ sub"@)) && !title_has_english_subs(lower)
}

/// The title is an original version without subtitles: tagged "(OF)" or
/// "(OV)", or, on this OV-only listing, mentioning "ov" or "of" at all,
/// when no subtitle tag applies.
pub open spec fn title_is_ov(lower: Seq<char>) -> bool {
    let eng = title_has_english_subs(lower);
    let omu = title_has_omu(lower);
    ((contains(lower, "(of)"@) || contains(lower, "(ov)"@)) && !omu && !eng) || (!omu && !eng && (
    contains(lower, "ov"@) || contains(lower, "of"@)))
}

/// The title with its language and format tags removed and trimmed.
pub open spec fn title_without_tags(title: Seq<char>) -> Seq<char> {
    let s = replace_all(title, "(OV w/ sub)"@, ""@);
    let s = replace_all(s, "(OV w/sub)"@, ""@);
    let s = replace_all(s, "(OmU)"@, ""@);
    let s = replace_all(s, "(OmeU)"@, ""@);
    let s = replace_all(s, "(OmengU)"@, ""@);
    let s = replace_all(s, "(OF)"@, ""@);
    let s = replace_all(s, "(OV)"@, ""@);
    let s = replace_all(s, "(HFR 3D)"@, ""@);
    let s = replace_all(s, "(HFR)"@, ""@);
    let s = replace_all(s, "(3D)"@, ""@);
    trim(s)
}

// ---------------------------------------------------------------------
// Tags in titles
// ---------------------------------------------------------------------

/// The tags taken out of titles, in the order they are taken out.
pub open spec fn title_tags() -> Seq<Seq<char>> {
    seq!["(OV w/ sub)"@, "(OV w/sub)"@, "(OmU)"@, "(OmeU)"@, "(OmengU)"@, "(OF)"@, "(OV)"@, "(HFR 3D)"@, "(HFR)"@, "(3D)"@]
}

/// No opening parenthesis: nothing that could start a tag.
pub open spec fn no_paren(s: Seq<char>) -> bool {
    forall|i: int| 0 <= i < s.len() ==> s[i] != '('
}

proof fn lemma_title_tags_shape()
    ensures
        forall|k: int| 0 <= k < 10 ==> (#[trigger] title_tags()[k]).len() > 1 && title_tags()[k][0] == '(',
        forall|k: int, i: int| 0 <= k < 10 && 0 < i < title_tags()[k].len() ==> #[trigger] title_tags()[k][i] != '(',
{
    reveal_strlit("(OV w/ sub)");
    reveal_strlit("(OV w/sub)");
    reveal_strlit("(OmU)");
    reveal_strlit("(OmeU)");
    reveal_strlit("(OmengU)");
    reveal_strlit("(OF)");
    reveal_strlit("(OV)");
    reveal_strlit("(HFR 3D)");
    reveal_strlit("(HFR)");
    reveal_strlit("(3D)");
    assert forall|k: int| 0 <= k < 10 implies (#[trigger] title_tags()[k]).len() > 1 && title_tags()[k][0] == '(' by {
        if k == 0 {} else if k == 1 {} else if k == 2 {} else if k == 3 {} else if k == 4 {} else if k == 5 {} else if k == 6 {} else if k == 7 {} else if k == 8 {} else if k == 9 {}
    }
    assert forall|k: int, i: int| 0 <= k < 10 && 0 < i < title_tags()[k].len() implies #[trigger] title_tags()[k][i] != '(' by {
        if k == 0 {} else if k == 1 {} else if k == 2 {} else if k == 3 {} else if k == 4 {} else if k == 5 {} else if k == 6 {} else if k == 7 {} else if k == 8 {} else if k == 9 {}
    }
}

/// Two different tags differ at some position that both have.
proof fn lemma_title_tags_differ(j: int, k: int) -> (d: int)
    requires
        0 <= j < k < 10,
    ensures
        0 <= d < title_tags()[j].len(),
        d < title_tags()[k].len(),
        title_tags()[j][d] != title_tags()[k][d],
{
    reveal_strlit("(OV w/ sub)");
    reveal_strlit("(OV w/sub)");
    reveal_strlit("(OmU)");
    reveal_strlit("(OmeU)");
    reveal_strlit("(OmengU)");
    reveal_strlit("(OF)");
    reveal_strlit("(OV)");
    reveal_strlit("(HFR 3D)");
    reveal_strlit("(HFR)");
    reveal_strlit("(3D)");
    let mut d: int = 0;
    if j == 0 && k == 1 {
        d = 6;
    } else if j == 0 && k == 2 {
        d = 2;
    } else if j == 0 && k == 3 {
        d = 2;
    } else if j == 0 && k == 4 {
        d = 2;
    } else if j == 0 && k == 5 {
        d = 2;
    } else if j == 0 && k == 6 {
        d = 3;
    } else if j == 0 && k == 7 {
        d = 1;
    } else if j == 0 && k == 8 {
        d = 1;
    } else if j == 0 && k == 9 {
        d = 1;
    } else if j == 1 && k == 2 {
        d = 2;
    } else if j == 1 && k == 3 {
        d = 2;
    } else if j == 1 && k == 4 {
        d = 2;
    } else if j == 1 && k == 5 {
        d = 2;
    } else if j == 1 && k == 6 {
        d = 3;
    } else if j == 1 && k == 7 {
        d = 1;
    } else if j == 1 && k == 8 {
        d = 1;
    } else if j == 1 && k == 9 {
        d = 1;
    } else if j == 2 && k == 3 {
        d = 3;
    } else if j == 2 && k == 4 {
        d = 3;
    } else if j == 2 && k == 5 {
        d = 2;
    } else if j == 2 && k == 6 {
        d = 2;
    } else if j == 2 && k == 7 {
        d = 1;
    } else if j == 2 && k == 8 {
        d = 1;
    } else if j == 2 && k == 9 {
        d = 1;
    } else if j == 3 && k == 4 {
        d = 4;
    } else if j == 3 && k == 5 {
        d = 2;
    } else if j == 3 && k == 6 {
        d = 2;
    } else if j == 3 && k == 7 {
        d = 1;
    } else if j == 3 && k == 8 {
        d = 1;
    } else if j == 3 && k == 9 {
        d = 1;
    } else if j == 4 && k == 5 {
        d = 2;
    } else if j == 4 && k == 6 {
        d = 2;
    } else if j == 4 && k == 7 {
        d = 1;
    } else if j == 4 && k == 8 {
        d = 1;
    } else if j == 4 && k == 9 {
        d = 1;
    } else if j == 5 && k == 6 {
        d = 2;
    } else if j == 5 && k == 7 {
        d = 1;
    } else if j == 5 && k == 8 {
        d = 1;
    } else if j == 5 && k == 9 {
        d = 1;
    } else if j == 6 && k == 7 {
        d = 1;
    } else if j == 6 && k == 8 {
        d = 1;
    } else if j == 6 && k == 9 {
        d = 1;
    } else if j == 7 && k == 8 {
        d = 4;
    } else if j == 7 && k == 9 {
        d = 1;
    } else if j == 8 && k == 9 {
        d = 1;
    }
    d
}

/// A replacement finds nothing to replace in a text without the pattern.
proof fn lemma_replace_absent(s: Seq<char>, p: Seq<char>, to: Seq<char>)
    requires
        p.len() > 0,
        !contains(s, p),
    ensures
        replace_all(s, p, to) == s,
    decreases s.len(),
{
    if s.len() > 0 {
        let t = s.drop_first();
        assert(!occurs_at(s, p, 0));
        assert forall|i: int| !occurs_at(t, p, i) by {
            if occurs_at(t, p, i) {
                assert(s.subrange(i + 1, i + 1 + p.len()) =~= t.subrange(i, i + p.len()));
                assert(occurs_at(s, p, i + 1));
            }
        }
        lemma_replace_absent(t, p, to);
        assert(s =~= seq![s[0]] + t);
    }
}

/// A pattern that starts with an opening parenthesis does not occur in a
/// text without one.
proof fn lemma_no_paren_absent(s: Seq<char>, p: Seq<char>)
    requires
        no_paren(s),
        p.len() > 0,
        p[0] == '(',
    ensures
        !contains(s, p),
{
    assert forall|i: int| !occurs_at(s, p, i) by {
        if occurs_at(s, p, i) {
            assert(s.subrange(i, i + p.len())[0] == s[i]);
        }
    }
}

/// Text before the first opening parenthesis passes through a replacement
/// of a pattern that starts with one.
proof fn lemma_replace_after_plain(a: Seq<char>, x: Seq<char>, p: Seq<char>, to: Seq<char>)
    requires
        no_paren(a),
        p.len() > 0,
        p[0] == '(',
    ensures
        replace_all(a + x, p, to) == a + replace_all(x, p, to),
    decreases a.len(),
{
    if a.len() > 0 {
        let s = a + x;
        assert(s[0] == a[0]);
        if occurs_at(s, p, 0) {
            assert(s.subrange(0, p.len() as int)[0] == s[0]);
        }
        assert(s.drop_first() =~= a.drop_first() + x);
        lemma_replace_after_plain(a.drop_first(), x, p, to);
        assert(a =~= seq![a[0]] + a.drop_first());
    } else {
        assert(a + x =~= x);
    }
}

/// A tag other than the one in a title does not occur in it.
proof fn lemma_other_tag_absent(a: Seq<char>, j: int, k: int, b: Seq<char>)
    requires
        no_paren(a),
        no_paren(b),
        0 <= j < k < 10,
    ensures
        !contains(a + title_tags()[k] + b, title_tags()[j]),
{
    lemma_title_tags_shape();
    let d = lemma_title_tags_differ(j, k);
    let t = title_tags()[k];
    let p = title_tags()[j];
    let s = a + t + b;
    assert forall|i: int| !occurs_at(s, p, i) by {
        if occurs_at(s, p, i) {
            assert(s.subrange(i, i + p.len())[0] == s[i]);
            assert(s[i] == '(');
            if i < a.len() {
                assert(s[i] == a[i]);
            } else if i >= a.len() + t.len() {
                assert(s[i] == b[i - a.len() - t.len()]);
            } else if i > a.len() {
                assert(s[i] == t[i - a.len()]);
            } else {
                assert(s.subrange(i, i + p.len())[d] == s[i + d]);
                assert(s[a.len() + d] == t[d]);
            }
        }
    }
}

/// The tags from position `j` on, taken out one after the other.
pub open spec fn strip_tags_from(s: Seq<char>, j: int) -> Seq<char>
    decreases 10 - j,
{
    if j >= 10 || j < 0 {
        s
    } else {
        strip_tags_from(replace_all(s, title_tags()[j], ""@), j + 1)
    }
}

proof fn lemma_strip_plain(s: Seq<char>, j: int)
    requires
        no_paren(s),
        0 <= j <= 10,
    ensures
        strip_tags_from(s, j) == s,
    decreases 10 - j,
{
    if j < 10 {
        lemma_title_tags_shape();
        lemma_no_paren_absent(s, title_tags()[j]);
        lemma_replace_absent(s, title_tags()[j], ""@);
        lemma_strip_plain(s, j + 1);
    }
}

proof fn lemma_strip_tag(a: Seq<char>, k: int, b: Seq<char>, j: int)
    requires
        no_paren(a),
        no_paren(b),
        0 <= j <= k < 10,
    ensures
        strip_tags_from(a + title_tags()[k] + b, j) == a + b,
    decreases k - j,
{
    lemma_title_tags_shape();
    let t = title_tags()[k];
    let s = a + t + b;
    if j < k {
        lemma_other_tag_absent(a, j, k, b);
        lemma_replace_absent(s, title_tags()[j], ""@);
        lemma_strip_tag(a, k, b, j + 1);
    } else {
        reveal_strlit("");
        assert(s =~= a + (t + b));
        lemma_replace_after_plain(a, t + b, t, ""@);
        assert((t + b).subrange(0, t.len() as int) =~= t);
        assert(occurs_at(t + b, t, 0));
        assert((t + b).skip(t.len() as int) =~= b);
        lemma_no_paren_absent(b, t);
        lemma_replace_absent(b, t, ""@);
        assert(replace_all(t + b, t, ""@) =~= b);
        assert forall|i: int| 0 <= i < (a + b).len() implies (a + b)[i] != '(' by {
            if i < a.len() {
                assert((a + b)[i] == a[i]);
            } else {
                assert((a + b)[i] == b[i - a.len()]);
            }
        }
        lemma_strip_plain(a + b, k + 1);
    }
}

proof fn lemma_title_without_tags_strips(s: Seq<char>)
    ensures
        title_without_tags(s) == trim(strip_tags_from(s, 0)),
{
    reveal_with_fuel(strip_tags_from, 11);
}

/// Taking tags out of a title removes exactly the tag it carries: a title
/// made of plain text (no opening parenthesis) with one language or format
/// tag ("(OV w/ sub)", "(OV w/sub)", "(OmU)", "(OmeU)", "(OmengU)", "(OF)",
/// "(OV)", "(HFR 3D)", "(HFR)" or "(3D)") anywhere in it cleans to the
/// plain text around the tag, trimmed; plain text cleans to itself,
/// trimmed.
pub proof fn lemma_title_tag_removed(a: Seq<char>, k: int, b: Seq<char>)
    requires
        no_paren(a),
        no_paren(b),
        0 <= k < 10,
    ensures
        title_without_tags(a + title_tags()[k] + b) == trim(a + b),
        title_without_tags(a) == trim(a),
{
    lemma_title_without_tags_strips(a + title_tags()[k] + b);
    lemma_strip_tag(a, k, b, 0);
    lemma_title_without_tags_strips(a);
    lemma_strip_plain(a, 0);
}

/// Parses the movie title to extract language version info and return a clean title.
/// Returns (clean_title, is_ov, is_omu, is_english_subs); at most one of the
/// three flags is set.
pub fn parse_title_language(title: &str) -> (r: (String, bool, bool, bool))
    ensures
        r.0@ == title_without_tags(title@),
        r.1 == title_is_ov(lowercase(title@)),
        r.2 == title_has_omu(lowercase(title@)),
        r.3 == title_has_english_subs(lowercase(title@)),
        !(r.1 && r.2) && !(r.1 && r.3) && !(r.2 && r.3),
{
    let v = chars_of(title);
    let l = lowercase_chars(&v);
    let is_english_subs = contains_str(&l, "omeu") || contains_str(&l, "omengu") || contains_str(
        &l,
        "english sub",
    );
    let is_omu = (contains_str(&l, "omu") || contains_str(&l, "ov w/ sub")) && !is_english_subs;
    let is_ov = (contains_str(&l, "(of)") || contains_str(&l, "(ov)")) && !is_omu
        && !is_english_subs;
    let is_ov = is_ov || (!is_omu && !is_english_subs && (contains_str(&l, "ov") || contains_str(
        &l,
        "of",
    )));
    let s = replace_in(&v, "(OV w/ sub)", "");
    let s = replace_in(&s, "(OV w/sub)", "");
    let s = replace_in(&s, "(OmU)", "");
    let s = replace_in(&s, "(OmeU)", "");
    let s = replace_in(&s, "(OmengU)", "");
    let s = replace_in(&s, "(OF)", "");
    let s = replace_in(&s, "(OV)", "");
    let s = replace_in(&s, "(HFR 3D)", "");
    let s = replace_in(&s, "(HFR)", "");
    let s = replace_in(&s, "(3D)", "");
    let t = trim_chars(&s);
    (string_of(&t), is_ov, is_omu, is_english_subs)
}

// ---------------------------------------------------------------------
// Times and dates
// ---------------------------------------------------------------------

/// A clock time written "15:00", "9:30" or "15.00": trimmed, dots read as
/// colons, then `%H:%M` or else `%-H:%M`.
pub open spec fn clock_time(s: Seq<char>) -> Option<(u32, u32, u32)> {
    let c = replace_all(trim(s), "."@, ":"@);
    match parsed_time(c, "%H:%M"@) {
        Some(t) => Some(t),
        None => parsed_time(c, "%-H:%M"@),
    }
}

/// Parses a time string like "15:00" or "15.00".
pub fn parse_time(time_str: &str) -> (r: Option<TimeOfDay>)
    ensures
        time_parts(r) == clock_time(time_str@),
        r matches Some(t) ==> t.wf(),
{
    let t = trim_chars(&chars_of(time_str));
    let c = replace_in(&t, ".", ":");
    let cs = string_of(&c);
    match parse_time_with(cs.as_str(), "%H:%M") {
        Some(x) => Some(x),
        None => parse_time_with(cs.as_str(), "%-H:%M"),
    }
}

pub const DATE_PATTERN: &'static str = r"(\d{1,2})[/.](\d{1,2})";

/// The date a column header stands for: today for "Today"/"Heute"; a
/// day and month ("Thu 08/01", "Do, 08.01.") in this year, or next year
/// when that is more than 180 days ago; otherwise `today` plus the column's
/// index in days.
pub open spec fn header_date(header: Seq<char>, idx: int, today: CivilDate) -> Option<CivilDate> {
    let lower = lowercase(header);
    let fallback = match date_plus_days(today.year, today.month, today.day, idx as i64) {
        Some((y, m, d)) => Some(CivilDate { year: y, month: m, day: d }),
        None => None,
    };
    if contains(lower, "today"@) || contains(lower, "heute"@) {
        Some(today)
    } else {
        match (regex_group(DATE_PATTERN@, header, 1), regex_group(DATE_PATTERN@, header, 2)) {
            (Some(ds), Some(ms)) => match (parse_u32_spec(ds), parse_u32_spec(ms)) {
                (Some(d), Some(m)) => if valid_date(today.year as int, m as int, d as int) {
                    let date = CivilDate { year: today.year, month: m, day: d };
                    let y = if date_before(date, today) && days_from(
                        today.year,
                        today.month,
                        today.day,
                        date.year,
                        date.month,
                        date.day,
                    ) > 180 {
                        today.year + 1
                    } else {
                        today.year as int
                    };
                    if valid_date(y, m as int, d as int) {
                        Some(CivilDate { year: y as i32, month: m, day: d })
                    } else {
                        None
                    }
                } else {
                    fallback
                },
                _ => None,
            },
            _ => fallback,
        }
    }
}

fn header_date_exec(header: &str, idx: usize, today: CivilDate) -> (r: Option<CivilDate>)
    requires
        today.wf(),
    ensures
        r == header_date(header@, idx as int, today),
        r matches Some(d) ==> d.wf(),
{
    let fallback = add_days(today, #[verifier::truncate] (idx as i64));
    let ghost fb = fallback;
    assert(fb == (match date_plus_days(today.year, today.month, today.day, idx as i64) {
        Some((y, m, d)) => Some(CivilDate { year: y, month: m, day: d }),
        None => None,
    }));
    let lower = lowercase_chars(&chars_of(header));
    if contains_str(&lower, "today") || contains_str(&lower, "heute") {
        return Some(today);
    }
    match (capture_group(DATE_PATTERN, header, 1), capture_group(DATE_PATTERN, header, 2)) {
        (Some(ds), Some(ms)) => match (parse_u32(&chars_of(ds.as_str())), parse_u32(&chars_of(ms.as_str()))) {
            (Some(d), Some(m)) => match checked_date(today.year, m, d) {
                Some(date) => {
                    let mut y: i32 = today.year;
                    if is_date_before(date, today) && days_between(today, date) > 180 {
                        y = today.year + 1;
                    }
                    checked_date(y, m, d)
                },
                None => fallback,
            },
            _ => None,
        },
        _ => fallback,
    }
}

/// The dates of the columns, one per header, in order.
pub open spec fn header_dates(headers: Seq<Seq<char>>, today: CivilDate) -> Seq<Option<CivilDate>> {
    Seq::new(headers.len(), |i: int| header_date(headers[i], i, today))
}

/// Parses date headers like "Today", "Thu 08/01", "Fri 09/01" into dates;
/// `today` is the current date in Berlin.
pub fn parse_date_headers(headers: &Vec<String>, today: CivilDate) -> (r: Vec<Option<CivilDate>>)
    requires
        today.wf(),
    ensures
        r@ == header_dates(strings_view(headers@), today),
        forall|i: int| 0 <= i < r@.len() ==> (#[trigger] r@[i] matches Some(d) ==> d.wf()),
{
    let ghost hv = strings_view(headers@);
    let mut r: Vec<Option<CivilDate>> = Vec::new();
    let mut i: usize = 0;
    while i < headers.len()
        invariant
            i <= headers.len(),
            today.wf(),
            hv == strings_view(headers@),
            r@.len() == i,
            forall|k: int| 0 <= k < i ==> r@[k] == header_date(hv[k], k, today),
            forall|k: int| 0 <= k < i ==> (#[trigger] r@[k] matches Some(d) ==> d.wf()),
        decreases headers.len() - i,
    {
        assert(hv[i as int] == headers@[i as int]@);
        let d = header_date_exec(headers[i].as_str(), i, today);
        r.push(d);
        i = i + 1;
    }
    assert(r@ =~= header_dates(hv, today));
    r
}

// ---------------------------------------------------------------------
// A cinema's program page
// ---------------------------------------------------------------------

pub const ARTICLE_CSS: &'static str = "section#filme article";
pub const HEADING_CSS: &'static str = "h3 a";
pub const TABLE_CSS: &'static str = "table.vorstellung";
pub const HEADER_CSS: &'static str = "thead tr th";
pub const ROW_CSS: &'static str = "tbody tr";
pub const CELL_CSS: &'static str = "td";
pub const MOVIE_CLASS_PREFIX: &'static str = "highlight_movie_";

/// `str::split` on one character: the pieces between its occurrences.
pub open spec fn split_char(s: Seq<char>, c: char) -> Seq<Seq<char>>
    decreases s.len(),
{
    if s.len() == 0 {
        seq![Seq::empty()]
    } else {
        let r = split_char(s.drop_last(), c);
        if s.last() == c {
            r.push(Seq::empty())
        } else {
            r.update(r.len() - 1, r.last().push(s.last()))
        }
    }
}

proof fn lemma_split_char_len(s: Seq<char>, c: char)
    ensures
        split_char(s, c).len() >= 1,
    decreases s.len(),
{
    if s.len() > 0 {
        lemma_split_char_len(s.drop_last(), c);
    }
}

/// The language flags of a movie: OV, OmU, OmeU, 3D.
pub open spec fn screening_at(ts: i64, f: (bool, bool, bool, bool)) -> ScreeningV {
    ScreeningV {
        showtime: ts,
        screening_type: None,
        is_ov: f.0,
        is_omu: f.1,
        is_english_subs: f.2,
        is_3d: f.3,
        booking_url: None,
    }
}

/// The screening one line of a cell gives: a clock time on `date`, when
/// that Berlin local time occurs exactly once.
pub open spec fn line_screening(line: Seq<char>, date: CivilDate, f: (bool, bool, bool, bool)) -> Option<ScreeningV> {
    let t = trim(line);
    if t.len() == 0 {
        None
    } else {
        match clock_time(t) {
            Some(tm) => match berlin_instant(date.year, date.month, date.day, tm.0, tm.1, tm.2) {
                Some(ts) => Some(screening_at(ts, f)),
                None => None,
            },
            None => None,
        }
    }
}

pub open spec fn lines_screenings(lines: Seq<Seq<char>>, date: CivilDate, f: (bool, bool, bool, bool)) -> Seq<ScreeningV>
    decreases lines.len(),
{
    if lines.len() == 0 {
        Seq::empty()
    } else {
        let r = lines_screenings(lines.drop_last(), date, f);
        match line_screening(lines.last(), date, f) {
            Some(x) => r.push(x),
            None => r,
        }
    }
}

/// The screenings of a table row: each cell under a column with a date
/// gives the screenings of its lines.
pub open spec fn row_screenings(cells: Seq<Seq<char>>, dates: Seq<Option<CivilDate>>, f: (bool, bool, bool, bool)) -> Seq<ScreeningV>
    decreases cells.len(),
{
    if cells.len() == 0 {
        Seq::empty()
    } else {
        let r = row_screenings(cells.drop_last(), dates, f);
        let idx = cells.len() - 1;
        if idx < dates.len() {
            match dates[idx] {
                Some(d) => r + lines_screenings(split_char(cells.last(), '\n'), d, f),
                None => r,
            }
        } else {
            r
        }
    }
}

pub open spec fn rows_screenings(rows: Seq<Seq<Seq<char>>>, dates: Seq<Option<CivilDate>>, f: (bool, bool, bool, bool)) -> Seq<ScreeningV>
    decreases rows.len(),
{
    if rows.len() == 0 {
        Seq::empty()
    } else {
        rows_screenings(rows.drop_last(), dates, f) + row_screenings(rows.last(), dates, f)
    }
}

pub open spec fn trimmed_all(s: Seq<Seq<char>>) -> Seq<Seq<char>> {
    s.map_values(|h: Seq<char>| trim(h))
}

/// The screenings of the first showtime table of the `k`-th article, its
/// columns dated by their headers; none when the article has no table.
pub open spec fn table_screenings(html: Seq<char>, k: int, today: CivilDate, f: (bool, bool, bool, bool)) -> Seq<ScreeningV> {
    rows_screenings(
        selected_cells_under(html, ARTICLE_CSS@, k, TABLE_CSS@, ROW_CSS@, CELL_CSS@),
        header_dates(trimmed_all(selected_text_under(html, ARTICLE_CSS@, k, TABLE_CSS@, HEADER_CSS@)), today),
        f,
    )
}

/// The movie id in an article's classes: the rest of the first class that
/// starts with "highlight_movie_".
pub open spec fn class_movie_id(ws: Seq<Seq<char>>) -> Option<Seq<char>>
    decreases ws.len(),
{
    if ws.len() == 0 {
        None
    } else if starts_with(ws[0], MOVIE_CLASS_PREFIX@) {
        Some(ws[0].skip(MOVIE_CLASS_PREFIX@.len() as int))
    } else {
        class_movie_id(ws.drop_first())
    }
}

/// The language flags and 3D mark of a trimmed title.
pub open spec fn title_flags(t: Seq<char>) -> (bool, bool, bool, bool) {
    let lower = lowercase(t);
    (title_is_ov(lower), title_has_omu(lower), title_has_english_subs(lower), contains(t, "3D"@))
}

/// The movie the `k`-th article describes, when it has a title and
/// screenings.
pub open spec fn article_movie(html: Seq<char>, k: int, today: CivilDate) -> Option<MovieWithScreeningsV> {
    match first_of(selected_text_in(html, ARTICLE_CSS@, k, HEADING_CSS@)) {
        None => None,
        Some(raw) => {
            let t = trim(raw);
            if t.len() == 0 {
                None
            } else {
                let screenings = table_screenings(html, k, today, title_flags(t));
                if screenings.len() > 0 {
                    Some(MovieWithScreeningsV {
                        movie: MovieV {
                            external_id: match attr_at(selected_attr(html, ARTICLE_CSS@, "class"@), k) {
                                Some(c) => class_movie_id(words(c)),
                                None => None,
                            },
                            title: title_without_tags(t),
                            runtime_minutes: None,
                            rating: None,
                        },
                        screenings: screenings,
                    })
                } else {
                    None
                }
            }
        },
    }
}

/// The movies of the first `n` articles, in document order.
pub open spec fn articles_movies(html: Seq<char>, n: nat, today: CivilDate) -> Seq<MovieWithScreeningsV>
    decreases n,
{
    if n == 0 {
        Seq::empty()
    } else {
        let r = articles_movies(html, (n - 1) as nat, today);
        match article_movie(html, n - 1, today) {
            Some(m) => r.push(m),
            None => r,
        }
    }
}

/// The movies of a cinema's program page.
pub open spec fn cinema_page(html: Seq<char>, today: CivilDate) -> Seq<MovieWithScreeningsV> {
    articles_movies(html, selected_attr(html, ARTICLE_CSS@, "class"@).len(), today)
}

/// Every screening carries the given flags.
pub open spec fn flags_are(xs: Seq<ScreeningV>, f: (bool, bool, bool, bool)) -> bool {
    forall|i: int|
        0 <= i < xs.len() ==> (#[trigger] xs[i]).is_ov == f.0 && xs[i].is_omu == f.1
            && xs[i].is_english_subs == f.2 && xs[i].is_3d == f.3
}

proof fn lemma_flags_concat(a: Seq<ScreeningV>, b: Seq<ScreeningV>, f: (bool, bool, bool, bool))
    requires
        flags_are(a, f),
        flags_are(b, f),
    ensures
        flags_are(a + b, f),
{
    assert forall|i: int| 0 <= i < (a + b).len() implies (#[trigger] (a + b)[i]).is_ov == f.0 && (a + b)[i].is_omu == f.1
        && (a + b)[i].is_english_subs == f.2 && (a + b)[i].is_3d == f.3 by {
        if i < a.len() {
            assert((a + b)[i] == a[i]);
        } else {
            assert((a + b)[i] == b[i - a.len()]);
        }
    }
}

proof fn lemma_lines_flags(lines: Seq<Seq<char>>, date: CivilDate, f: (bool, bool, bool, bool))
    ensures
        flags_are(lines_screenings(lines, date, f), f),
    decreases lines.len(),
{
    if lines.len() > 0 {
        lemma_lines_flags(lines.drop_last(), date, f);
        let r = lines_screenings(lines.drop_last(), date, f);
        if let Some(x) = line_screening(lines.last(), date, f) {
            assert(flags_are(seq![x], f));
            lemma_flags_concat(r, seq![x], f);
            assert(r.push(x) =~= r + seq![x]);
        }
    }
}

proof fn lemma_row_flags(cells: Seq<Seq<char>>, dates: Seq<Option<CivilDate>>, f: (bool, bool, bool, bool))
    ensures
        flags_are(row_screenings(cells, dates, f), f),
    decreases cells.len(),
{
    if cells.len() > 0 {
        lemma_row_flags(cells.drop_last(), dates, f);
        let idx = cells.len() - 1;
        if idx < dates.len() {
            if let Some(d) = dates[idx] {
                lemma_lines_flags(split_char(cells.last(), '\n'), d, f);
                lemma_flags_concat(row_screenings(cells.drop_last(), dates, f), lines_screenings(split_char(cells.last(), '\n'), d, f), f);
            }
        }
    }
}

proof fn lemma_rows_flags(rows: Seq<Seq<Seq<char>>>, dates: Seq<Option<CivilDate>>, f: (bool, bool, bool, bool))
    ensures
        flags_are(rows_screenings(rows, dates, f), f),
    decreases rows.len(),
{
    if rows.len() > 0 {
        lemma_rows_flags(rows.drop_last(), dates, f);
        lemma_row_flags(rows.last(), dates, f);
        lemma_flags_concat(rows_screenings(rows.drop_last(), dates, f), row_screenings(rows.last(), dates, f), f);
    }
}

/// Each movie of a parsed program page has at least one screening, and all
/// its screenings carry the language flags of its title, at most one of
/// OV, OmU and OmeU set.
pub proof fn lemma_cinema_page_shape(html: Seq<char>, today: CivilDate)
    ensures
        forall|i: int| 0 <= i < cinema_page(html, today).len() ==> {
            let m = #[trigger] cinema_page(html, today)[i];
            &&& m.screenings.len() > 0
            &&& forall|k: int| 0 <= k < m.screenings.len() ==> {
                let x = #[trigger] m.screenings[k];
                &&& !(x.is_ov && x.is_omu)
                &&& !(x.is_ov && x.is_english_subs)
                &&& !(x.is_omu && x.is_english_subs)
            }
        },
{
    lemma_articles_shape(html, selected_attr(html, ARTICLE_CSS@, "class"@).len(), today);
}

pub open spec fn movie_shape(m: MovieWithScreeningsV) -> bool {
    &&& m.screenings.len() > 0
    &&& forall|k: int| 0 <= k < m.screenings.len() ==> {
        let x = #[trigger] m.screenings[k];
        &&& !(x.is_ov && x.is_omu)
        &&& !(x.is_ov && x.is_english_subs)
        &&& !(x.is_omu && x.is_english_subs)
    }
}

proof fn lemma_articles_shape(html: Seq<char>, n: nat, today: CivilDate)
    ensures
        forall|i: int| 0 <= i < articles_movies(html, n, today).len() ==> movie_shape(#[trigger] articles_movies(html, n, today)[i]),
    decreases n,
{
    if n > 0 {
        lemma_articles_shape(html, (n - 1) as nat, today);
        let r = articles_movies(html, (n - 1) as nat, today);
        let a = n - 1;
        if let Some(m) = article_movie(html, a, today) {
            if let Some(raw) = first_of(selected_text_in(html, ARTICLE_CSS@, a, HEADING_CSS@)) {
                let t = trim(raw);
                let f = title_flags(t);
                lemma_rows_flags(
                    selected_cells_under(html, ARTICLE_CSS@, a, TABLE_CSS@, ROW_CSS@, CELL_CSS@),
                    header_dates(trimmed_all(selected_text_under(html, ARTICLE_CSS@, a, TABLE_CSS@, HEADER_CSS@)), today),
                    f,
                );
                assert(movie_shape(m));
            }
            let q = r.push(m);
            assert forall|i: int| 0 <= i < q.len() implies movie_shape(#[trigger] q[i]) by {
                if i < r.len() {
                    assert(q[i] == r[i]);
                }
            }
        }
    }
}

pub open spec fn screenings_view(v: Seq<Screening>) -> Seq<ScreeningV> {
    v.map_values(|s: Screening| s@)
}

fn line_screening_exec(line: &Vec<char>, date: CivilDate, f: (bool, bool, bool, bool)) -> (r: Option<Screening>)
    requires
        date.wf(),
    ensures
        match r {
            Some(x) => line_screening(line@, date, f) == Some(x@),
            None => line_screening(line@, date, f) is None,
        },
{
    let t = trim_chars(line);
    if t.len() == 0 {
        return None;
    }
    let ts = string_of(&t);
    match parse_time(ts.as_str()) {
        Some(tm) => match berlin_to_utc(date, tm) {
            Some(x) => Some(Screening {
                showtime: x,
                screening_type: None,
                is_ov: f.0,
                is_omu: f.1,
                is_english_subs: f.2,
                is_3d: f.3,
                booking_url: None,
            }),
            None => None,
        },
        None => None,
    }
}

fn push_line(out: &mut Vec<Screening>, line: &Vec<char>, date: CivilDate, f: (bool, bool, bool, bool), Ghost(done): Ghost<Seq<Seq<char>>>)
    requires
        date.wf(),
    ensures
        screenings_view(final(out)@) == screenings_view(old(out)@) + (lines_screenings(done.push(line@), date, f).skip(lines_screenings(done, date, f).len() as int)),
        lines_screenings(done.push(line@), date, f).len() >= lines_screenings(done, date, f).len(),
        lines_screenings(done.push(line@), date, f) == lines_screenings(done, date, f) + lines_screenings(done.push(line@), date, f).skip(lines_screenings(done, date, f).len() as int),
{
    let ghost before = screenings_view(out@);
    let ghost r = lines_screenings(done, date, f);
    assert(done.push(line@).drop_last() =~= done);
    match line_screening_exec(line, date, f) {
        Some(x) => {
            let ghost xv = x@;
            out.push(x);
            assert(screenings_view(out@) =~= before.push(xv));
            assert(r.push(xv).skip(r.len() as int) =~= seq![xv]);
            assert(before.push(xv) =~= before + seq![xv]);
            assert(r.push(xv) =~= r + seq![xv]);
        },
        None => {
            assert(r.skip(r.len() as int) =~= Seq::<ScreeningV>::empty());
            assert(before =~= before + Seq::<ScreeningV>::empty());
            assert(r =~= r + Seq::<ScreeningV>::empty());
        },
    }
}

fn push_cell(out: &mut Vec<Screening>, cell: &Vec<char>, date: CivilDate, f: (bool, bool, bool, bool))
    requires
        date.wf(),
    ensures
        screenings_view(final(out)@) == screenings_view(old(out)@) + lines_screenings(split_char(cell@, '\n'), date, f),
{
    let ghost base = screenings_view(out@);
    let mut cur: Vec<char> = Vec::new();
    let ghost mut done: Seq<Seq<char>> = Seq::empty();
    let mut i: usize = 0;
    assert(cell@.take(0) =~= Seq::<char>::empty());
    assert(split_char(Seq::<char>::empty(), '\n') =~= done.push(cur@));
    while i < cell.len()
        invariant
            i <= cell.len(),
            date.wf(),
            split_char(cell@.take(i as int), '\n') == done.push(cur@),
            screenings_view(out@) == base + lines_screenings(done, date, f),
        decreases cell.len() - i,
    {
        let c = cell[i];
        assert(cell@.take(i + 1).drop_last() =~= cell@.take(i as int));
        assert(cell@.take(i + 1).last() == c);
        if c == '\n' {
            push_line(out, &cur, date, f, Ghost(done));
            proof {
                let r = lines_screenings(done, date, f);
                let r2 = lines_screenings(done.push(cur@), date, f);
                assert(screenings_view(out@) =~= base + r2);
                done = done.push(cur@);
            }
            cur = Vec::new();
            assert(split_char(cell@.take(i + 1), '\n') =~= done.push(cur@));
        } else {
            let ghost old_cur = cur@;
            cur.push(c);
            assert(done.push(old_cur).update(done.len() as int, old_cur.push(c)) =~= done.push(cur@));
        }
        i = i + 1;
    }
    assert(cell@.take(cell.len() as int) =~= cell@);
    push_line(out, &cur, date, f, Ghost(done));
    assert(screenings_view(out@) =~= base + lines_screenings(done.push(cur@), date, f));
}

pub open spec fn dates_wf(dates: Seq<Option<CivilDate>>) -> bool {
    forall|i: int| 0 <= i < dates.len() ==> (#[trigger] dates[i] matches Some(d) ==> d.wf())
}

fn push_row(out: &mut Vec<Screening>, cells: &Vec<String>, dates: &Vec<Option<CivilDate>>, f: (bool, bool, bool, bool))
    requires
        dates_wf(dates@),
    ensures
        screenings_view(final(out)@) == screenings_view(old(out)@) + row_screenings(strings_view(cells@), dates@, f),
{
    let ghost base = screenings_view(out@);
    let ghost cv = strings_view(cells@);
    let mut k: usize = 0;
    assert(row_screenings(cv.take(0), dates@, f) =~= Seq::<ScreeningV>::empty());
    assert(base + Seq::<ScreeningV>::empty() =~= base);
    while k < cells.len()
        invariant
            k <= cells.len(),
            dates_wf(dates@),
            cv == strings_view(cells@),
            screenings_view(out@) == base + row_screenings(cv.take(k as int), dates@, f),
        decreases cells.len() - k,
    {
        assert(cv.take(k + 1).drop_last() =~= cv.take(k as int));
        assert(cv.take(k + 1).last() == cells@[k as int]@);
        let ghost prev = row_screenings(cv.take(k as int), dates@, f);
        if k < dates.len() {
            match dates[k] {
                Some(d) => {
                    assert(dates@[k as int] matches Some(x) ==> x.wf());
                    let cell = chars_of(cells[k].as_str());
                    push_cell(out, &cell, d, f);
                    assert(screenings_view(out@) =~= base + row_screenings(cv.take(k + 1), dates@, f));
                },
                None => {},
            }
        }
        k = k + 1;
    }
    assert(cv.take(cells.len() as int) =~= cv);
}

fn table_screenings_exec(html: &str, k: usize, today: CivilDate, f: (bool, bool, bool, bool)) -> (r: Vec<Screening>)
    requires
        today.wf(),
    ensures
        screenings_view(r@) == table_screenings(html@, k as int, today, f),
{
    let raw_headers = select_text_under(html, ARTICLE_CSS, k, TABLE_CSS, HEADER_CSS);
    let ghost rh = strings_view(raw_headers@);
    let mut headers: Vec<String> = Vec::new();
    let mut i: usize = 0;
    while i < raw_headers.len()
        invariant
            i <= raw_headers.len(),
            rh == strings_view(raw_headers@),
            strings_view(headers@) == trimmed_all(rh.take(i as int)),
        decreases raw_headers.len() - i,
    {
        assert(rh[i as int] == raw_headers@[i as int]@);
        let t = trim_chars(&chars_of(raw_headers[i].as_str()));
        let ghost before = strings_view(headers@);
        let h = string_of(&t);
        let ghost hv = h@;
        headers.push(h);
        assert(strings_view(headers@) =~= before.push(hv));
        assert(rh.take(i + 1) =~= rh.take(i as int).push(rh[i as int]));
        assert(trimmed_all(rh.take(i + 1)) =~= trimmed_all(rh.take(i as int)).push(trim(rh[i as int])));
        i = i + 1;
    }
    assert(rh.take(raw_headers.len() as int) =~= rh);
    let dates = parse_date_headers(&headers, today);
    let rows = select_cells_under(html, ARTICLE_CSS, k, TABLE_CSS, ROW_CSS, CELL_CSS);
    let ghost rv = rows@.map_values(|row: Vec<String>| strings_view(row@));
    let mut out: Vec<Screening> = Vec::new();
    let mut j: usize = 0;
    assert(screenings_view(out@) =~= rows_screenings(rv.take(0), dates@, f));
    while j < rows.len()
        invariant
            j <= rows.len(),
            dates_wf(dates@),
            rv == rows@.map_values(|row: Vec<String>| strings_view(row@)),
            screenings_view(out@) == rows_screenings(rv.take(j as int), dates@, f),
        decreases rows.len() - j,
    {
        assert(rv.take(j + 1).drop_last() =~= rv.take(j as int));
        assert(rv.take(j + 1).last() == strings_view(rows@[j as int]@));
        push_row(&mut out, &rows[j], &dates, f);
        j = j + 1;
    }
    assert(rv.take(rows.len() as int) =~= rv);
    out
}

fn class_movie_id_exec(class_attr: &str) -> (r: Option<String>)
    ensures
        opt_view(r) == class_movie_id(words(class_attr@)),
{
    let ws = split_words(&chars_of(class_attr));
    let ghost wv = ws@.map_values(|w: Vec<char>| w@);
    let prefix = chars_of(MOVIE_CLASS_PREFIX);
    let mut i: usize = 0;
    assert(wv.skip(0) =~= wv);
    while i < ws.len()
        invariant
            i <= ws.len(),
            wv == ws@.map_values(|w: Vec<char>| w@),
            wv == words(class_attr@),
            prefix@ == MOVIE_CLASS_PREFIX@,
            class_movie_id(wv) == class_movie_id(wv.skip(i as int)),
        decreases ws.len() - i,
    {
        assert(wv.skip(i as int)[0] == ws@[i as int]@);
        assert(wv.skip(i as int).drop_first() =~= wv.skip(i + 1));
        if occurs_at_exec(&ws[i], &prefix, 0) {
            let w = &ws[i];
            let mut rest: Vec<char> = Vec::new();
            let mut k = prefix.len();
            while k < w.len()
                invariant
                    prefix.len() <= k <= w.len(),
                    rest@ == w@.subrange(prefix.len() as int, k as int),
                decreases w.len() - k,
            {
                rest.push(w[k]);
                assert(w@.subrange(prefix.len() as int, k + 1) =~= w@.subrange(prefix.len() as int, k as int).push(w@[k as int]));
                k = k + 1;
            }
            assert(rest@ =~= w@.skip(prefix.len() as int));
            return Some(string_of(&rest));
        }
        i = i + 1;
    }
    None
}

fn article_movie_exec(html: &str, k: usize, class: Option<String>, today: CivilDate) -> (r: Option<MovieWithScreenings>)
    requires
        today.wf(),
        opt_view(class) == attr_at(selected_attr(html@, ARTICLE_CSS@, "class"@), k as int),
    ensures
        match r {
            Some(m) => article_movie(html@, k as int, today) == Some(m@),
            None => article_movie(html@, k as int, today) is None,
        },
{
    let raw = match first_text_in(html, ARTICLE_CSS, k, HEADING_CSS) {
        Some(x) => x,
        None => return None,
    };
    let tv = trim_chars(&chars_of(raw.as_str()));
    if tv.len() == 0 {
        return None;
    }
    let t = string_of(&tv);
    let (clean, is_ov, is_omu, is_english_subs) = parse_title_language(t.as_str());
    let f = (is_ov, is_omu, is_english_subs, contains_str(&tv, "3D"));
    let screenings = table_screenings_exec(html, k, today, f);
    assert(screenings.len() == screenings_view(screenings@).len());
    if screenings.len() == 0 {
        return None;
    }
    let external_id = match class {
        Some(c) => class_movie_id_exec(c.as_str()),
        None => None,
    };
    let movie = Movie { external_id: external_id, title: clean, runtime_minutes: None, rating: None };
    Some(MovieWithScreenings { movie: movie, screenings: screenings })
}

/// Parses a cinema's OV program page: one movie per article with a title
/// and at least one screening; `today` is the current date in Berlin.
pub fn parse_cinema_page(html: &str, today: CivilDate) -> (r: Vec<MovieWithScreenings>)
    requires
        today.wf(),
    ensures
        r@.map_values(|m: MovieWithScreenings| m@) == cinema_page(html@, today),
{
    let classes = select_attr(html, ARTICLE_CSS, "class");
    let mut movies: Vec<MovieWithScreenings> = Vec::new();
    let mut i: usize = 0;
    assert(movies@.map_values(|m: MovieWithScreenings| m@) =~= articles_movies(html@, 0, today));
    while i < classes.len()
        invariant
            i <= classes.len(),
            today.wf(),
            opts_view(classes@) == selected_attr(html@, ARTICLE_CSS@, "class"@),
            movies@.map_values(|m: MovieWithScreenings| m@) == articles_movies(html@, i as nat, today),
        decreases classes.len() - i,
    {
        let ghost mv = movies@.map_values(|m: MovieWithScreenings| m@);
        let class = attr_at_exec(&classes, i);
        match article_movie_exec(html, i, class, today) {
            Some(m) => {
                let ghost x = m@;
                movies.push(m);
                assert(movies@.map_values(|m: MovieWithScreenings| m@) =~= mv.push(x));
            },
            None => {},
        }
        i = i + 1;
    }
    movies
}

// ---------------------------------------------------------------------
// The cinema list
// ---------------------------------------------------------------------

pub const BASE_URL: &'static str = "https://www.critic.de/ov-movies-berlin/";

pub const MARKER_PATTERN: &'static str = r#"addMarker\(false,"([^"]+)","([^"]+)","([^"]+)","([^"]+)","([^"]+)","Berlin","https://www\.critic\.de/ov-movies-berlin/cinema/([^/]+)/"\)"#;

/// A cinema of the OV listing, as its map marker gives it; coordinates
/// are kept as the decimal text of the marker.
#[derive(Debug, Clone)]
pub struct CinemaInfo {
    pub slug: String,
    pub name: String,
    pub address: String,
    pub postal_code: String,
    pub latitude: String,
    pub longitude: String,
}

pub struct CinemaInfoV {
    pub slug: Seq<char>,
    pub name: Seq<char>,
    pub address: Seq<char>,
    pub postal_code: Seq<char>,
    pub latitude: Seq<char>,
    pub longitude: Seq<char>,
}

impl View for CinemaInfo {
    type V = CinemaInfoV;

    open spec fn view(&self) -> CinemaInfoV {
        CinemaInfoV {
            slug: self.slug@,
            name: self.name@,
            address: self.address@,
            postal_code: self.postal_code@,
            latitude: self.latitude@,
            longitude: self.longitude@,
        }
    }
}

/// The cinema a marker's groups describe: latitude, longitude, name,
/// street, postal code, slug.
pub open spec fn marker_cinema(g: Seq<Option<Seq<char>>>) -> Option<CinemaInfoV> {
    if g.len() >= 7 && g[1] is Some && g[2] is Some && g[3] is Some && g[4] is Some && g[5] is Some
        && g[6] is Some {
        Some(CinemaInfoV {
            latitude: g[1]->0,
            longitude: g[2]->0,
            name: g[3]->0,
            address: g[4]->0,
            postal_code: g[5]->0,
            slug: g[6]->0,
        })
    } else {
        None
    }
}

pub open spec fn marker_cinemas(ms: Seq<Seq<Option<Seq<char>>>>) -> Seq<CinemaInfoV>
    decreases ms.len(),
{
    if ms.len() == 0 {
        Seq::empty()
    } else {
        let r = marker_cinemas(ms.drop_last());
        match marker_cinema(ms.last()) {
            Some(c) => r.push(c),
            None => r,
        }
    }
}

fn group_text(g: &Vec<Option<String>>, k: usize) -> (r: Option<String>)
    ensures
        opt_view(r) == (if k < g@.len() {
            opt_view(g@[k as int])
        } else {
            None
        }),
{
    if k < g.len() {
        match &g[k] {
            Some(s) => Some(s.clone()),
            None => None,
        }
    } else {
        None
    }
}

/// The cinemas named by the map markers of the main OV page (those in
/// Berlin), in page order, before any check of their coordinates.
pub fn cinema_markers(html: &str) -> (r: Vec<CinemaInfo>)
    ensures
        r@.map_values(|c: CinemaInfo| c@) == marker_cinemas(regex_matches(MARKER_PATTERN@, html@)),
{
    let all = all_captures(MARKER_PATTERN, html);
    let ghost mv = all@.map_values(|c: Vec<Option<String>>| groups_view(c@));
    let mut out: Vec<CinemaInfo> = Vec::new();
    let mut i: usize = 0;
    assert(out@.map_values(|c: CinemaInfo| c@) =~= marker_cinemas(mv.take(0)));
    while i < all.len()
        invariant
            i <= all.len(),
            mv == all@.map_values(|c: Vec<Option<String>>| groups_view(c@)),
            out@.map_values(|c: CinemaInfo| c@) == marker_cinemas(mv.take(i as int)),
        decreases all.len() - i,
    {
        assert(mv.take(i + 1).drop_last() =~= mv.take(i as int));
        assert(mv.take(i + 1).last() == groups_view(all@[i as int]@));
        let g = &all[i];
        let ghost gv = groups_view(g@);
        assert(forall|k: int| 0 <= k < g@.len() ==> gv[k] == opt_view(#[trigger] g@[k]));
        let ghost before = out@.map_values(|c: CinemaInfo| c@);
        match (group_text(g, 1), group_text(g, 2), group_text(g, 3), group_text(g, 4), group_text(g, 5), group_text(g, 6)) {
            (Some(lat), Some(lng), Some(name), Some(address), Some(postal), Some(slug)) => {
                let c = CinemaInfo { slug: slug, name: name, address: address, postal_code: postal, latitude: lat, longitude: lng };
                let ghost cv = c@;
                out.push(c);
                assert(out@.map_values(|c: CinemaInfo| c@) =~= before.push(cv));
            },
            _ => {},
        }
        i = i + 1;
    }
    assert(mv.take(all.len() as int) =~= mv);
    out
}

/// The page of a cinema's OV program.
pub open spec fn cinema_url_of(slug: Seq<char>) -> Seq<char> {
    BASE_URL@ + "cinema/"@ + slug + "/"@
}

pub fn cinema_url(slug: &str) -> (r: String)
    ensures
        r@ == cinema_url_of(slug@),
{
    let mut v = chars_of(BASE_URL);
    push_chars(&mut v, &chars_of("cinema/"));
    push_chars(&mut v, &chars_of(slug));
    push_chars(&mut v, &chars_of("/"));
    string_of(&v)
}

/// The theater record of a listed cinema: in Berlin, with its street and
/// postal code, its program page and its coordinates.
pub fn critic_theater(cinema: &CinemaInfo) -> (r: Theater)
    ensures
        r@ == (TheaterV {
            external_id: cinema@.slug,
            name: cinema@.name,
            city: Some("Berlin"@),
            address: Some(cinema@.address + ", "@ + cinema@.postal_code + " Berlin"@),
            url: Some(cinema_url_of(cinema@.slug)),
            latitude: Some(cinema@.latitude),
            longitude: Some(cinema@.longitude),
        }),
{
    let mut address = chars_of(cinema.address.as_str());
    push_chars(&mut address, &chars_of(", "));
    push_chars(&mut address, &chars_of(cinema.postal_code.as_str()));
    push_chars(&mut address, &chars_of(" Berlin"));
    Theater {
        external_id: string_of(&chars_of(cinema.slug.as_str())),
        name: string_of(&chars_of(cinema.name.as_str())),
        city: Some(string_of(&chars_of("Berlin"))),
        address: Some(string_of(&address)),
        url: Some(cinema_url(cinema.slug.as_str())),
        latitude: Some(string_of(&chars_of(cinema.latitude.as_str()))),
        longitude: Some(string_of(&chars_of(cinema.longitude.as_str()))),
    }
}

} // verus!
