//! What the command-line commands print and write, from the rows they read.
use crate::assets::{generate_css, generate_headers, generate_js, generate_robots_txt, ROBOTS_TXT, SITE_CSS, SITE_HEADERS, SITE_JS};
use crate::clock::{parse_rfc3339_instant, rfc3339_instant};
use crate::models::opt_view;
use crate::site_page::{generate_html, generate_sitemap, lit, movie_views, or_empty, page_of, push_joined, put_time, shown, sitemap_of, MovieData, ScreeningData, ScreeningDataV};
use crate::clock::utc_date_text;
use crate::static_site::{normalize_theater_name, normalized_name};
use crate::text::{chars_eq, chars_of, contains, contains_chars, decimal, join, lowercase, lowercase_chars, push_chars, push_count, push_decimal, string_of};
use crate::theaters::{group_theaters, groups_summarize, info_views, listed_before, RawTheater, TheaterInfo};
use vstd::prelude::*;

verus! {

// ---------------------------------------------------------------------
// Rows
// ---------------------------------------------------------------------

/// Movie information for the films command.
#[derive(Debug, Clone)]
pub struct MovieInfo {
    pub title: String,
    pub original_title: Option<String>,
    pub year: Option<i32>,
    pub genres: Option<String>,
    pub overview: Option<String>,
    pub poster_url: Option<String>,
    pub tmdb_url: Option<String>,
    pub runtime_minutes: Option<i32>,
    pub screening_count: i32,
    pub ov_count: i32,
}

pub struct MovieInfoV {
    pub title: Seq<char>,
    pub original_title: Option<Seq<char>>,
    pub year: Option<i32>,
    pub genres: Option<Seq<char>>,
    pub overview: Option<Seq<char>>,
    pub poster_url: Option<Seq<char>>,
    pub tmdb_url: Option<Seq<char>>,
    pub runtime_minutes: Option<i32>,
    pub screening_count: i32,
    pub ov_count: i32,
}

impl View for MovieInfo {
    type V = MovieInfoV;

    open spec fn view(&self) -> MovieInfoV {
        MovieInfoV {
            title: self.title@,
            original_title: opt_view(self.original_title),
            year: self.year,
            genres: opt_view(self.genres),
            overview: opt_view(self.overview),
            poster_url: opt_view(self.poster_url),
            tmdb_url: opt_view(self.tmdb_url),
            runtime_minutes: self.runtime_minutes,
            screening_count: self.screening_count,
            ov_count: self.ov_count,
        }
    }
}

/// A screening result with denormalized movie and theater info; the
/// showtime in Unix seconds.
#[derive(Debug, Clone)]
pub struct ScreeningResult {
    pub movie_title: String,
    pub runtime_minutes: Option<i32>,
    pub theater_name: String,
    pub city: Option<String>,
    pub showtime: i64,
    pub screening_type: Option<String>,
    pub is_ov: bool,
    pub is_omu: bool,
    pub is_english_subs: bool,
    pub is_3d: bool,
    pub booking_url: Option<String>,
}

pub struct ScreeningResultV {
    pub movie_title: Seq<char>,
    pub runtime_minutes: Option<i32>,
    pub theater_name: Seq<char>,
    pub city: Option<Seq<char>>,
    pub showtime: i64,
    pub screening_type: Option<Seq<char>>,
    pub is_ov: bool,
    pub is_omu: bool,
    pub is_english_subs: bool,
    pub is_3d: bool,
    pub booking_url: Option<Seq<char>>,
}

impl View for ScreeningResult {
    type V = ScreeningResultV;

    open spec fn view(&self) -> ScreeningResultV {
        ScreeningResultV {
            movie_title: self.movie_title@,
            runtime_minutes: self.runtime_minutes,
            theater_name: self.theater_name@,
            city: opt_view(self.city),
            showtime: self.showtime,
            screening_type: opt_view(self.screening_type),
            is_ov: self.is_ov,
            is_omu: self.is_omu,
            is_english_subs: self.is_english_subs,
            is_3d: self.is_3d,
            booking_url: opt_view(self.booking_url),
        }
    }
}

/// A stored showtime: its RFC 3339 text read as Unix seconds, or `now`
/// when the text does not read.
pub open spec fn showtime_or(text: Seq<char>, now: i64) -> i64 {
    match rfc3339_instant(text) {
        Some(t) => t,
        None => now,
    }
}

/// Reads a stored showtime, falling back to `now`.
pub fn read_showtime(text: &str, now: i64) -> (r: i64)
    ensures
        r == showtime_or(text@, now),
{
    match parse_rfc3339_instant(text) {
        Some(t) => t,
        None => now,
    }
}

/// A screening row of the site: its theater's name normalized, its stored
/// showtime read (falling back to `now`).
pub fn screening_data_from_row(
    theater_name: String,
    theater_url: Option<String>,
    showtime_text: &str,
    is_ov: bool,
    is_omu: bool,
    is_english_subs: bool,
    is_3d: bool,
    screening_type: Option<String>,
    booking_url: Option<String>,
    now: i64,
) -> (r: ScreeningData)
    ensures
        r@ == (ScreeningDataV {
            theater_name: theater_name@,
            normalized_theater_name: normalized_name(theater_name@),
            theater_url: opt_view(theater_url),
            showtime: showtime_or(showtime_text@, now),
            is_ov: is_ov,
            is_omu: is_omu,
            is_english_subs: is_english_subs,
            is_3d: is_3d,
            screening_type: opt_view(screening_type),
            booking_url: opt_view(booking_url),
        }),
{
    let normalized = normalize_theater_name(theater_name.as_str());
    ScreeningData {
        normalized_theater_name: normalized,
        theater_name: theater_name,
        theater_url: theater_url,
        showtime: read_showtime(showtime_text, now),
        is_ov: is_ov,
        is_omu: is_omu,
        is_english_subs: is_english_subs,
        is_3d: is_3d,
        screening_type: screening_type,
        booking_url: booking_url,
    }
}

// ---------------------------------------------------------------------
// Screening lines
// ---------------------------------------------------------------------

/// The tags of a listed screening: OV, OmU, OmeU, 3D and its type.
pub open spec fn result_tags(s: ScreeningResultV) -> Seq<Seq<char>> {
    (if s.is_ov {
        seq!["OV"@]
    } else {
        Seq::empty()
    }) + (if s.is_omu {
        seq!["OmU"@]
    } else {
        Seq::empty()
    }) + (if s.is_english_subs {
        seq!["OmeU"@]
    } else {
        Seq::empty()
    }) + (if s.is_3d {
        seq!["3D"@]
    } else {
        Seq::empty()
    }) + (match s.screening_type {
        Some(t) => seq![t],
        None => Seq::empty(),
    })
}

/// The line printed for a screening:
/// `  HH:MM - Title (NNmin) [OV, 3D] @ Theater`.
pub open spec fn screening_line_of(s: ScreeningResultV) -> Seq<char> {
    let tags = result_tags(s);
    "  "@ + shown(s.showtime, "%H:%M"@) + " - "@ + s.movie_title + (match s.runtime_minutes {
        Some(m) => " ("@ + decimal(m as int) + "min)"@,
        None => Seq::empty(),
    }) + (if tags.len() == 0 {
        Seq::empty()
    } else {
        " ["@ + join(tags, ", "@) + "]"@
    }) + " @ "@ + s.theater_name
}

/// Formats a single screening in a readable line.
#[verifier::rlimit(30)]
pub fn print_screening(s: &ScreeningResult) -> (r: String)
    ensures
        r@ == screening_line_of(s@),
{
    let mut tags: Vec<Vec<char>> = Vec::new();
    if s.is_ov {
        tags.push(chars_of("OV"));
    }
    if s.is_omu {
        tags.push(chars_of("OmU"));
    }
    if s.is_english_subs {
        tags.push(chars_of("OmeU"));
    }
    if s.is_3d {
        tags.push(chars_of("3D"));
    }
    match &s.screening_type {
        Some(t) => tags.push(chars_of(t.as_str())),
        None => {},
    }
    assert(tags@.map_values(|v: Vec<char>| v@) =~= result_tags(s@));
    let mut out: Vec<char> = Vec::new();
    lit(&mut out, "  ");
    put_time(&mut out, s.showtime, "%H:%M");
    lit(&mut out, " - ");
    lit(&mut out, s.movie_title.as_str());
    let ghost o1 = out@;
    match s.runtime_minutes {
        Some(m) => {
            lit(&mut out, " (");
            push_decimal(&mut out, m as i64);
            lit(&mut out, "min)");
        },
        None => {},
    }
    let ghost o2 = out@;
    if tags.len() > 0 {
        lit(&mut out, " [");
        push_joined(&mut out, &tags, ", ");
        lit(&mut out, "]");
    }
    let ghost o3 = out@;
    lit(&mut out, " @ ");
    lit(&mut out, s.theater_name.as_str());
    assert(out@ =~= screening_line_of(s@));
    string_of(&out)
}

// ---------------------------------------------------------------------
// list, search, ov
// ---------------------------------------------------------------------

/// A screening is listed when it has not started before `now`, its title
/// contains the query (ignoring case) when there is one, and, with
/// `ov_only`, it is OV, OmU or OmeU.
pub open spec fn listed(s: ScreeningResultV, query: Option<Seq<char>>, ov_only: bool, now: i64) -> bool {
    &&& !(s.showtime < now)
    &&& match query {
        Some(q) => contains(lowercase(s.movie_title), lowercase(q)),
        None => true,
    }
    &&& (!ov_only || s.is_ov || s.is_omu || s.is_english_subs)
}

/// The lines of the listed screenings, in order.
pub open spec fn listed_lines(ss: Seq<ScreeningResultV>, query: Option<Seq<char>>, ov_only: bool, now: i64) -> Seq<Seq<char>>
    decreases ss.len(),
{
    if ss.len() == 0 {
        Seq::empty()
    } else {
        let r = listed_lines(ss.drop_last(), query, ov_only, now);
        if listed(ss.last(), query, ov_only, now) {
            r.push(screening_line_of(ss.last()))
        } else {
            r
        }
    }
}

/// What the list command prints.
pub open spec fn list_output(ss: Seq<ScreeningResultV>, query: Option<Seq<char>>, ov_only: bool, now: i64) -> Seq<Seq<char>> {
    if ss.len() == 0 {
        seq!["No screenings found. Run 'film-finder scrape' first."@]
    } else {
        let lines = listed_lines(ss, query, ov_only, now);
        lines.push("\n"@ + decimal(lines.len() as int) + " upcoming screenings"@)
    }
}

pub open spec fn lines_view(v: Seq<String>) -> Seq<Seq<char>> {
    v.map_values(|s: String| s@)
}

pub open spec fn results_view(v: Seq<ScreeningResult>) -> Seq<ScreeningResultV> {
    v.map_values(|s: ScreeningResult| s@)
}

fn count_line(n: usize, text: &str) -> (r: String)
    ensures
        r@ == "\n"@ + decimal(n as int) + text@,
{
    let mut out: Vec<char> = Vec::new();
    lit(&mut out, "\n");
    push_count(&mut out, n);
    lit(&mut out, text);
    assert(out@ =~= "\n"@ + decimal(n as int) + text@);
    string_of(&out)
}

/// The lines printed when listing upcoming screenings, optionally only
/// those whose title contains `filter_movie` and only OV/OmU ones; `now` in
/// Unix seconds.
pub fn cmd_list_filtered(screenings: &Vec<ScreeningResult>, filter_movie: Option<&str>, ov_only: bool, now: i64) -> (r: Vec<String>)
    ensures
        lines_view(r@) == list_output(
            results_view(screenings@),
            match filter_movie {
                Some(q) => Some(q@),
                None => None,
            },
            ov_only,
            now,
        ),
{
    let ghost sv = results_view(screenings@);
    let ghost q = match filter_movie {
        Some(q) => Some(q@),
        None => None,
    };
    if screenings.len() == 0 {
        let v = vec![string_of(&chars_of("No screenings found. Run 'film-finder scrape' first."))];
        assert(lines_view(v@) =~= list_output(sv, q, ov_only, now));
        return v;
    }
    let query_lower: Option<Vec<char>> = match filter_movie {
        Some(q) => Some(lowercase_chars(&chars_of(q))),
        None => None,
    };
    let mut out: Vec<String> = Vec::new();
    let mut i: usize = 0;
    assert(lines_view(out@) =~= listed_lines(sv.take(0), q, ov_only, now));
    while i < screenings.len()
        invariant
            i <= screenings.len(),
            sv == results_view(screenings@),
            q == (match filter_movie {
                Some(q) => Some(q@),
                None => None::<Seq<char>>,
            }),
            match query_lower {
                Some(l) => q matches Some(qq) && l@ == lowercase(qq),
                None => q is None,
            },
            lines_view(out@) == listed_lines(sv.take(i as int), q, ov_only, now),
            out@.len() <= i,
        decreases screenings.len() - i,
    {
        assert(sv.take(i + 1).drop_last() =~= sv.take(i as int));
        assert(sv.take(i + 1).last() == screenings@[i as int]@);
        let s = &screenings[i];
        let title_ok = match &query_lower {
            Some(l) => contains_chars(&lowercase_chars(&chars_of(s.movie_title.as_str())), l),
            None => true,
        };
        if !(s.showtime < now) && title_ok && (!ov_only || s.is_ov || s.is_omu || s.is_english_subs) {
            let line = print_screening(s);
            let ghost before = lines_view(out@);
            let ghost lv = line@;
            out.push(line);
            assert(lines_view(out@) =~= before.push(lv));
        }
        i = i + 1;
    }
    assert(sv.take(screenings.len() as int) =~= sv);
    let n = out.len();
    let ghost before = lines_view(out@);
    let last = count_line(n, " upcoming screenings");
    let ghost lv = last@;
    out.push(last);
    assert(lines_view(out@) =~= before.push(lv));
    out
}

/// The lines printed when listing all upcoming screenings.
pub fn cmd_list(screenings: &Vec<ScreeningResult>, filter_movie: Option<&str>, now: i64) -> (r: Vec<String>)
    ensures
        lines_view(r@) == list_output(
            results_view(screenings@),
            match filter_movie {
                Some(q) => Some(q@),
                None => None,
            },
            false,
            now,
        ),
{
    cmd_list_filtered(screenings, filter_movie, false, now)
}

/// What the search command prints.
pub open spec fn search_output(query: Seq<char>, ov_only: bool, ss: Seq<ScreeningResultV>, now: i64) -> Seq<Seq<char>> {
    if query.len() == 0 {
        seq!["Usage: film-finder search <movie title> [--ov]"@]
    } else {
        seq![
            "Searching for: "@ + query + (if ov_only {
                " (OV only)\n"@
            } else {
                "\n"@
            }),
        ] + list_output(ss, Some(query), ov_only, now)
    }
}

/// The lines printed when searching for a movie by title.
pub fn cmd_search(query: &str, ov_only: bool, screenings: &Vec<ScreeningResult>, now: i64) -> (r: Vec<String>)
    ensures
        lines_view(r@) == search_output(query@, ov_only, results_view(screenings@), now),
{
    let qv = chars_of(query);
    if qv.len() == 0 {
        let v = vec![string_of(&chars_of("Usage: film-finder search <movie title> [--ov]"))];
        assert(lines_view(v@) =~= search_output(query@, ov_only, results_view(screenings@), now));
        return v;
    }
    let mut head: Vec<char> = chars_of("Searching for: ");
    push_chars(&mut head, &qv);
    if ov_only {
        lit(&mut head, " (OV only)\n");
    } else {
        lit(&mut head, "\n");
    }
    let rest = cmd_list_filtered(screenings, Some(query), ov_only, now);
    let mut out: Vec<String> = vec![string_of(&head)];
    let ghost hv = lines_view(out@);
    let mut i: usize = 0;
    while i < rest.len()
        invariant
            i <= rest.len(),
            lines_view(out@) == hv + lines_view(rest@).take(i as int),
        decreases rest.len() - i,
    {
        let ghost before = lines_view(out@);
        let line = string_of(&chars_of(rest[i].as_str()));
        let ghost lv = line@;
        out.push(line);
        assert(lines_view(rest@).take(i + 1) =~= lines_view(rest@).take(i as int).push(lv));
        assert(lines_view(out@) =~= before.push(lv));
        i = i + 1;
    }
    assert(lines_view(rest@).take(rest.len() as int) =~= lines_view(rest@));
    assert(lines_view(out@) =~= search_output(query@, ov_only, results_view(screenings@), now));
    out
}

/// The state of the OV listing: lines so far, the day shown last, and the
/// number of screenings listed.
pub open spec fn ov_step(st: (Seq<Seq<char>>, Seq<char>, nat), s: ScreeningResultV, now: i64) -> (Seq<Seq<char>>, Seq<char>, nat) {
    if s.showtime < now {
        st
    } else {
        let day = shown(s.showtime, "%A, %B %d"@);
        let lines = if day != st.1 {
            (if st.1.len() > 0 {
                st.0.push(Seq::empty())
            } else {
                st.0
            }).push("--- "@ + day + " ---"@)
        } else {
            st.0
        };
        (lines.push(screening_line_of(s)), day, st.2 + 1)
    }
}

pub open spec fn ov_fold(ss: Seq<ScreeningResultV>, now: i64) -> (Seq<Seq<char>>, Seq<char>, nat)
    decreases ss.len(),
{
    if ss.len() == 0 {
        (seq!["=== OV/OmU Screenings (Original Version / English) ===\n"@], Seq::empty(), 0)
    } else {
        ov_step(ov_fold(ss.drop_last(), now), ss.last(), now)
    }
}

/// What the ov command prints: upcoming screenings under a heading for
/// each Berlin day, with a blank line between days.
pub open spec fn ov_output(ss: Seq<ScreeningResultV>, now: i64) -> Seq<Seq<char>> {
    if ss.len() == 0 {
        seq!["No OV/OmU screenings found. Run 'film-finder scrape' first."@]
    } else {
        let st = ov_fold(ss, now);
        st.0.push("\n"@ + decimal(st.2 as int) + " OV/OmU screenings found"@)
    }
}

/// The lines printed when listing only OV/OmU screenings (given in
/// showtime order).
pub fn cmd_ov(screenings: &Vec<ScreeningResult>, now: i64) -> (r: Vec<String>)
    ensures
        lines_view(r@) == ov_output(results_view(screenings@), now),
{
    let ghost sv = results_view(screenings@);
    if screenings.len() == 0 {
        let v = vec![string_of(&chars_of("No OV/OmU screenings found. Run 'film-finder scrape' first."))];
        assert(lines_view(v@) =~= ov_output(sv, now));
        return v;
    }
    let mut out: Vec<String> = vec![string_of(&chars_of("=== OV/OmU Screenings (Original Version / English) ===\n"))];
    let mut current: Vec<char> = Vec::new();
    let mut count: usize = 0;
    let mut i: usize = 0;
    assert(lines_view(out@) =~= ov_fold(sv.take(0), now).0);
    assert(current@ =~= ov_fold(sv.take(0), now).1);
    while i < screenings.len()
        invariant
            i <= screenings.len(),
            sv == results_view(screenings@),
            lines_view(out@) == ov_fold(sv.take(i as int), now).0,
            current@ == ov_fold(sv.take(i as int), now).1,
            count == ov_fold(sv.take(i as int), now).2,
            count <= i,
        decreases screenings.len() - i,
    {
        assert(sv.take(i + 1).drop_last() =~= sv.take(i as int));
        assert(sv.take(i + 1).last() == screenings@[i as int]@);
        let s = &screenings[i];
        if !(s.showtime < now) {
            let mut day: Vec<char> = Vec::new();
            put_time(&mut day, s.showtime, "%A, %B %d");
            assert(day@ =~= shown(s.showtime, "%A, %B %d"@));
            if !chars_eq(&day, &current) {
                if current.len() > 0 {
                    let ghost b = lines_view(out@);
                    out.push(String::new());
                    assert(lines_view(out@) =~= b.push(Seq::empty()));
                }
                let mut h: Vec<char> = chars_of("--- ");
                push_chars(&mut h, &day);
                lit(&mut h, " ---");
                let ghost b = lines_view(out@);
                let hs = string_of(&h);
                let ghost hv = hs@;
                out.push(hs);
                assert(lines_view(out@) =~= b.push(hv));
            }
            let line = print_screening(s);
            let ghost b = lines_view(out@);
            let ghost lv = line@;
            out.push(line);
            assert(lines_view(out@) =~= b.push(lv));
            current = day;
            count = count + 1;
        }
        i = i + 1;
    }
    assert(sv.take(screenings.len() as int) =~= sv);
    let ghost b = lines_view(out@);
    let last = count_line(count, " OV/OmU screenings found");
    let ghost lv = last@;
    out.push(last);
    assert(lines_view(out@) =~= b.push(lv));
    out
}

// ---------------------------------------------------------------------
// films
// ---------------------------------------------------------------------

/// The title line of a film: title, year, runtime, screening count and
/// OV count.
pub open spec fn film_head(m: MovieInfoV) -> Seq<char> {
    (match m.original_title {
        Some(o) => o,
        None => m.title,
    }) + (match m.year {
        Some(y) => " ("@ + decimal(y as int) + ")"@,
        None => Seq::empty(),
    }) + (match m.runtime_minutes {
        Some(r) => " - "@ + decimal(r as int) + "min"@,
        None => Seq::empty(),
    }) + " - "@ + decimal(m.screening_count as int) + " screenings"@ + (if m.ov_count > 0 {
        " ["@ + decimal(m.ov_count as int) + " OV]"@
    } else {
        Seq::empty()
    })
}

pub open spec fn film_genres(m: MovieInfoV) -> Seq<Seq<char>> {
    match m.genres {
        Some(g) => if g.len() > 0 {
            seq!["  Genres: "@ + g]
        } else {
            Seq::empty()
        },
        None => Seq::empty(),
    }
}

pub open spec fn film_link(m: MovieInfoV) -> Seq<Seq<char>> {
    match m.tmdb_url {
        Some(u) => seq!["  TMDB: "@ + u],
        None => Seq::empty(),
    }
}

/// The lines of one film: title line, genres, TMDB link, then a blank line.
pub open spec fn film_lines(m: MovieInfoV) -> Seq<Seq<char>> {
    seq![film_head(m)] + film_genres(m) + film_link(m) + seq![Seq::<char>::empty()]
}

pub open spec fn films_lines(ms: Seq<MovieInfoV>) -> Seq<Seq<char>>
    decreases ms.len(),
{
    if ms.len() == 0 {
        Seq::empty()
    } else {
        films_lines(ms.drop_last()) + film_lines(ms.last())
    }
}

/// What the films command prints.
pub open spec fn films_output(ms: Seq<MovieInfoV>) -> Seq<Seq<char>> {
    if ms.len() == 0 {
        seq!["No films found. Run 'film-finder scrape' first."@]
    } else {
        seq!["=== Films Currently Showing ===\n"@] + films_lines(ms) + seq![
            decimal(ms.len() as int) + " films total"@,
        ]
    }
}

pub open spec fn infos_view(v: Seq<MovieInfo>) -> Seq<MovieInfoV> {
    v.map_values(|m: MovieInfo| m@)
}

fn push_line(out: &mut Vec<String>, line: &Vec<char>)
    ensures
        lines_view(final(out)@) == lines_view(old(out)@).push(line@),
{
    let s = string_of(line);
    let ghost b = lines_view(out@);
    let ghost sv = s@;
    out.push(s);
    assert(lines_view(out@) =~= b.push(sv));
}

#[verifier::rlimit(30)]
fn film_head_exec(m: &MovieInfo) -> (r: Vec<char>)
    ensures
        r@ == film_head(m@),
{
    let mut head: Vec<char> = match &m.original_title {
        Some(o) => chars_of(o.as_str()),
        None => chars_of(m.title.as_str()),
    };
    let ghost h0 = head@;
    match m.year {
        Some(y) => {
            lit(&mut head, " (");
            push_decimal(&mut head, y as i64);
            lit(&mut head, ")");
        },
        None => {},
    }
    let ghost h1 = head@;
    match m.runtime_minutes {
        Some(r) => {
            lit(&mut head, " - ");
            push_decimal(&mut head, r as i64);
            lit(&mut head, "min");
        },
        None => {},
    }
    let ghost h2 = head@;
    lit(&mut head, " - ");
    push_decimal(&mut head, m.screening_count as i64);
    lit(&mut head, " screenings");
    let ghost h3 = head@;
    if m.ov_count > 0 {
        lit(&mut head, " [");
        push_decimal(&mut head, m.ov_count as i64);
        lit(&mut head, " OV]");
    }
    assert(head@ =~= film_head(m@));
    head
}

fn push_film_lines(out: &mut Vec<String>, m: &MovieInfo)
    ensures
        lines_view(final(out)@) == lines_view(old(out)@) + film_lines(m@),
{
    let ghost o0 = lines_view(out@);
    let head = film_head_exec(m);
    push_line(out, &head);
    let ghost o1 = lines_view(out@);
    match &m.genres {
        Some(g) => {
            let gv = chars_of(g.as_str());
            if gv.len() > 0 {
                let mut l = chars_of("  Genres: ");
                push_chars(&mut l, &gv);
                push_line(out, &l);
            }
        },
        None => {},
    }
    let ghost o2 = lines_view(out@);
    assert(o2 =~= o1 + film_genres(m@));
    match &m.tmdb_url {
        Some(u) => {
            let mut l = chars_of("  TMDB: ");
            push_chars(&mut l, &chars_of(u.as_str()));
            push_line(out, &l);
        },
        None => {},
    }
    let ghost o3 = lines_view(out@);
    assert(o3 =~= o2 + film_link(m@));
    push_line(out, &Vec::new());
    assert(lines_view(out@) =~= o0 + film_lines(m@));
}

/// The lines printed when listing all movies with screening counts.
pub fn cmd_films(movies: &Vec<MovieInfo>) -> (r: Vec<String>)
    ensures
        lines_view(r@) == films_output(infos_view(movies@)),
{
    let ghost mv = infos_view(movies@);
    let mut out: Vec<String> = Vec::new();
    if movies.len() == 0 {
        push_line(&mut out, &chars_of("No films found. Run 'film-finder scrape' first."));
        assert(lines_view(out@) =~= films_output(mv));
        return out;
    }
    push_line(&mut out, &chars_of("=== Films Currently Showing ===\n"));
    let ghost base = lines_view(out@);
    let mut i: usize = 0;
    assert(base + films_lines(mv.take(0)) =~= base);
    while i < movies.len()
        invariant
            i <= movies.len(),
            mv == infos_view(movies@),
            lines_view(out@) == base + films_lines(mv.take(i as int)),
        decreases movies.len() - i,
    {
        assert(mv.take(i + 1).drop_last() =~= mv.take(i as int));
        assert(mv.take(i + 1).last() == movies@[i as int]@);
        push_film_lines(&mut out, &movies[i]);
        assert(lines_view(out@) =~= base + films_lines(mv.take(i + 1)));
        i = i + 1;
    }
    assert(mv.take(movies.len() as int) =~= mv);
    let mut last: Vec<char> = Vec::new();
    push_count(&mut last, movies.len());
    lit(&mut last, " films total");
    push_line(&mut out, &last);
    assert(lines_view(out@) =~= films_output(mv));
    out
}

// ---------------------------------------------------------------------
// static
// ---------------------------------------------------------------------

/// A file of the generated site.
#[derive(Debug)]
pub struct SiteFile {
    pub name: String,
    pub contents: String,
}

/// The generated site: its files and the theaters of its filter.
#[derive(Debug)]
pub struct StaticSite {
    pub files: Vec<SiteFile>,
    pub theaters: Vec<TheaterInfo>,
}

fn site_file(name: &str, contents: String) -> (r: SiteFile)
    ensures
        r.name@ == name@,
        r.contents@ == contents@,
{
    SiteFile { name: string_of(&chars_of(name)), contents: contents }
}

fn static_text(s: &'static str) -> (r: String)
    ensures
        r@ == s@,
{
    string_of(&chars_of(s))
}

/// The static site for the movies with OV screenings and the theater rows:
/// the theaters grouped and ordered for the filter, the index page (its
/// cache version and "last updated" time both `now`, Unix seconds), the
/// stylesheet, the script, the sitemap, robots.txt and the cache headers.
pub fn cmd_static(theater_rows: &Vec<RawTheater>, movies: &Vec<MovieData>, now: i64) -> (r: StaticSite)
    ensures
        groups_summarize(info_views(r.theaters@), theater_rows@.map_values(|x: RawTheater| x@)),
        forall|a: int, b: int| 0 <= a < b < r.theaters@.len() ==> listed_before(#[trigger] info_views(r.theaters@)[a], #[trigger] info_views(r.theaters@)[b]),
        r.files@.len() == 6,
        r.files@[0].name@ == "index.html"@,
        r.files@[0].contents@ == page_of(movie_views(movies@), info_views(r.theaters@), now, now),
        r.files@[1].name@ == "style.css"@ && r.files@[1].contents@ == SITE_CSS@,
        r.files@[2].name@ == "app.js"@ && r.files@[2].contents@ == SITE_JS@,
        r.files@[3].name@ == "sitemap.xml"@,
        r.files@[3].contents@ == sitemap_of(movie_views(movies@), or_empty(utc_date_text(now))),
        r.files@[4].name@ == "robots.txt"@ && r.files@[4].contents@ == ROBOTS_TXT@,
        r.files@[5].name@ == "_headers"@ && r.files@[5].contents@ == SITE_HEADERS@,
{
    let theaters = group_theaters(theater_rows);
    let html = generate_html(movies, &theaters, now, now);
    let mut files: Vec<SiteFile> = Vec::new();
    files.push(site_file("index.html", html));
    files.push(site_file("style.css", static_text(generate_css())));
    files.push(site_file("app.js", static_text(generate_js())));
    files.push(site_file("sitemap.xml", generate_sitemap(movies, now)));
    files.push(site_file("robots.txt", static_text(generate_robots_txt())));
    files.push(site_file("_headers", static_text(generate_headers())));
    StaticSite { files: files, theaters: theaters }
}

} // verus!
