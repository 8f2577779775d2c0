//! Yorck Kinos: the Next.js page data of the cinema pages, its sessions, and
//! their grouping by theater and film.
use crate::clock::{berlin_instant, berlin_to_utc, parse_rfc3339_wall_clock, rfc3339_wall_clock};
use crate::models::{
    opt_view, Movie, MovieV, MovieWithScreenings, MovieWithScreeningsV, Screening, ScreeningV,
    Theater, TheaterData, TheaterDataV, TheaterV,
};
use crate::scrapers::cinestar::{any_contains, any_equal, has_attribute, has_attribute_containing};
use crate::text::{
    chars_eq, chars_of, contains, contains_str, decimal, find_from, first_occurrence,
    first_occurrence_from, push_chars, push_decimal, string_of,
};
use vstd::prelude::*;

verus! {

/// Why the embedded page data could not be found.
#[derive(Debug, Clone, Copy, PartialEq, Eq)]
pub enum NextDataError {
    /// The `__NEXT_DATA__` script tag is missing.
    MissingStart,
    /// The script tag is not closed.
    MissingEnd,
}

/// The opening marker of the embedded JSON.
pub open spec fn next_data_start() -> Seq<char> {
    "__NEXT_DATA__\" type=\"application/json\">"@
}

/// The text between the first `__NEXT_DATA__` script marker and the next
/// `</script>` after it.
pub open spec fn next_data_of(html: Seq<char>) -> Result<Seq<char>, NextDataError> {
    match first_occurrence(html, next_data_start()) {
        None => Err(NextDataError::MissingStart),
        Some(start) => {
            let json_start = start + next_data_start().len();
            match first_occurrence_from(html, "</script>"@, json_start) {
                None => Err(NextDataError::MissingEnd),
                Some(end) => Ok(html.subrange(json_start, end)),
            }
        },
    }
}

/// Extracts the `__NEXT_DATA__` JSON text from a Next.js page.
pub fn extract_next_data(html: &str) -> (r: Result<String, NextDataError>)
    ensures
        match r {
            Ok(s) => next_data_of(html@) == Ok::<Seq<char>, NextDataError>(s@),
            Err(e) => next_data_of(html@) == Err::<Seq<char>, NextDataError>(e),
        },
{
    let h = chars_of(html);
    let marker = chars_of("__NEXT_DATA__\" type=\"application/json\">");
    let end_marker = chars_of("</script>");
    match find_from(&h, &marker, 0) {
        None => Err(NextDataError::MissingStart),
        Some(start) => {
            proof {
                crate::text::lemma_first_occurrence_from(h@, marker@, 0);
                assert(crate::text::occurs_at(h@, marker@, start as int));
            }
            let n = h.len();
            let json_start = start + marker.len();
            assert(json_start <= n);
            match find_from(&h, &end_marker, json_start) {
                None => Err(NextDataError::MissingEnd),
                Some(end) => {
                    proof {
                        crate::text::lemma_first_occurrence_from(h@, end_marker@, json_start as int);
                        assert(crate::text::occurs_at(h@, end_marker@, end as int));
                    }
                    let mut out: Vec<char> = Vec::new();
                    let mut k = json_start;
                    while k < end
                        invariant
                            json_start <= k <= end <= h.len(),
                            out@ == h@.subrange(json_start as int, k as int),
                        decreases end - k,
                    {
                        out.push(h[k]);
                        assert(h@.subrange(json_start as int, k + 1) =~= h@.subrange(
                            json_start as int,
                            k as int,
                        ).push(h@[k as int]));
                        k = k + 1;
                    }
                    Ok(string_of(&out))
                },
            }
        },
    }
}

/// The embedded data never contains the closing `</script>` tag: it ends
/// at the first one after its start.
pub proof fn lemma_next_data_unclosed(html: Seq<char>)
    ensures
        next_data_of(html) matches Ok(s) ==> !contains(s, "</script>"@),
{
    reveal_strlit("</script>");
    if let Some(start) = first_occurrence(html, next_data_start()) {
        let json_start = start + next_data_start().len();
        crate::text::lemma_first_occurrence_from(html, next_data_start(), 0);
        crate::text::lemma_first_occurrence_from(html, "</script>"@, json_start);
        if let Some(end) = first_occurrence_from(html, "</script>"@, json_start) {
            let s = html.subrange(json_start, end);
            if contains(s, "</script>"@) {
                let k = choose|k: int| crate::text::occurs_at(s, "</script>"@, k);
                assert(s.subrange(k, k + "</script>"@.len()) =~= html.subrange(json_start + k, json_start + k + "</script>"@.len()));
                assert(crate::text::occurs_at(html, "</script>"@, json_start + k));
                assert(false);
            }
        }
    }
}

// ---------------------------------------------------------------------
// Sessions
// ---------------------------------------------------------------------

/// A cinema from the cinemas page; coordinates as decimal text.
#[derive(Debug, Clone)]
pub struct YorckCinema {
    pub name: String,
    pub slug: Option<String>,
    pub address: String,
    pub latitude: Option<String>,
    pub longitude: Option<String>,
}

pub struct YorckCinemaV {
    pub name: Seq<char>,
    pub slug: Option<Seq<char>>,
    pub address: Seq<char>,
    pub latitude: Option<Seq<char>>,
    pub longitude: Option<Seq<char>>,
}

impl View for YorckCinema {
    type V = YorckCinemaV;

    open spec fn view(&self) -> YorckCinemaV {
        YorckCinemaV {
            name: self.name@,
            slug: opt_view(self.slug),
            address: self.address@,
            latitude: opt_view(self.latitude),
            longitude: opt_view(self.longitude),
        }
    }
}

/// One session of a film: its start, its formats and its cinema.
#[derive(Debug, Clone)]
pub struct YorckSession {
    pub start_time: String,
    pub formats: Vec<String>,
    pub cinema_name: String,
}

pub struct YorckSessionV {
    pub start_time: Seq<char>,
    pub formats: Seq<Seq<char>>,
    pub cinema_name: Seq<char>,
}

impl View for YorckSession {
    type V = YorckSessionV;

    open spec fn view(&self) -> YorckSessionV {
        YorckSessionV {
            start_time: self.start_time@,
            formats: self.formats@.map_values(|f: String| f@),
            cinema_name: self.cinema_name@,
        }
    }
}

/// A film of the films page with its sessions.
#[derive(Debug, Clone)]
pub struct YorckFilm {
    pub id: String,
    pub title: String,
    pub runtime: Option<i32>,
    pub fsk: Option<i32>,
    pub sessions: Vec<YorckSession>,
}

pub struct YorckFilmV {
    pub id: Seq<char>,
    pub title: Seq<char>,
    pub runtime: Option<i32>,
    pub fsk: Option<i32>,
    pub sessions: Seq<YorckSessionV>,
}

impl View for YorckFilm {
    type V = YorckFilmV;

    open spec fn view(&self) -> YorckFilmV {
        YorckFilmV {
            id: self.id@,
            title: self.title@,
            runtime: self.runtime,
            fsk: self.fsk,
            sessions: self.sessions@.map_values(|s: YorckSession| s@),
        }
    }
}

/// Why a session could not be turned into a screening; each carries the
/// session's start time as written.
#[derive(Debug, Clone, PartialEq, Eq)]
pub enum SessionError {
    /// The start time is not RFC 3339; with the parser's message.
    UnreadableStartTime(String, String),
    /// The wall-clock start time is skipped or repeated in Berlin.
    NoSingleLocalTime(String),
}

pub enum SessionErrorV {
    UnreadableStartTime(Seq<char>, Seq<char>),
    NoSingleLocalTime(Seq<char>),
}

impl View for SessionError {
    type V = SessionErrorV;

    open spec fn view(&self) -> SessionErrorV {
        match self {
            SessionError::UnreadableStartTime(s, e) => SessionErrorV::UnreadableStartTime(s@, e@),
            SessionError::NoSingleLocalTime(s) => SessionErrorV::NoSingleLocalTime(s@),
        }
    }
}

impl SessionError {
    /// The error's message.
    pub fn message(&self) -> (r: String)
        ensures
            r@ == (match self@ {
                SessionErrorV::UnreadableStartTime(s, e) => "Failed to parse showtime '"@ + s + "': "@ + e,
                SessionErrorV::NoSingleLocalTime(s) => "Ambiguous or non-existent local time: "@ + s,
            }),
    {
        match self {
            SessionError::UnreadableStartTime(s, e) => {
                let mut v = chars_of("Failed to parse showtime '");
                push_chars(&mut v, &chars_of(s.as_str()));
                push_chars(&mut v, &chars_of("': "));
                push_chars(&mut v, &chars_of(e.as_str()));
                string_of(&v)
            },
            SessionError::NoSingleLocalTime(s) => {
                let mut v = chars_of("Ambiguous or non-existent local time: ");
                push_chars(&mut v, &chars_of(s.as_str()));
                string_of(&v)
            },
        }
    }
}

pub open spec fn is_special_format(f: Seq<char>) -> bool {
    contains(f, "Dolby"@) || contains(f, "IMAX"@) || contains(f, "HFR"@)
}

/// The first format naming Dolby, IMAX or HFR.
pub open spec fn special_format(fs: Seq<Seq<char>>) -> Option<Seq<char>>
    decreases fs.len(),
{
    if fs.len() == 0 {
        None
    } else if is_special_format(fs[0]) {
        Some(fs[0])
    } else {
        special_format(fs.drop_first())
    }
}

/// The screening of a session: its start time's wall clock read as Berlin
/// time (the offset written with it is ignored), and its formats.
pub open spec fn session_screening(s: YorckSessionV) -> Result<ScreeningV, SessionErrorV> {
    match rfc3339_wall_clock(s.start_time) {
        Err(e) => Err(SessionErrorV::UnreadableStartTime(s.start_time, e)),
        Ok((y, mo, d, h, mi, sec)) => match berlin_instant(y, mo, d, h, mi, sec) {
            None => Err(SessionErrorV::NoSingleLocalTime(s.start_time)),
            Some(ts) => Ok(
                ScreeningV {
                    showtime: ts,
                    screening_type: special_format(s.formats),
                    is_ov: any_equal(s.formats, "OV"@),
                    is_omu: any_equal(s.formats, "OmU"@),
                    is_english_subs: any_equal(s.formats, "OmeU"@) || any_equal(s.formats, "OmengU"@),
                    is_3d: any_contains(s.formats, "3D"@),
                    booking_url: None,
                },
            ),
        },
    }
}

/// A readable session's language flags come from its formats alone, each
/// from the presence of its own names whatever else is listed: OV when some
/// format is "OV", OmU when some format is "OmU", English subtitles when
/// some format is "OmeU" or "OmengU"; a session screening has no booking
/// link.
pub proof fn lemma_session_flags(sess: YorckSessionV)
    ensures
        session_screening(sess) matches Ok(x) ==> {
            &&& x.is_ov == (exists|i: int| 0 <= i < sess.formats.len() && #[trigger] sess.formats[i] == "OV"@)
            &&& x.is_omu == (exists|i: int| 0 <= i < sess.formats.len() && #[trigger] sess.formats[i] == "OmU"@)
            &&& x.is_english_subs == (exists|i: int|
                0 <= i < sess.formats.len() && (#[trigger] sess.formats[i] == "OmeU"@ || sess.formats[i] == "OmengU"@))
            &&& x.booking_url is None
        },
{
    if let Ok(x) = session_screening(sess) {
        let f = sess.formats;
        if x.is_english_subs {
            let i = choose|i: int| 0 <= i < f.len() && (f[i] == "OmeU"@ || f[i] == "OmengU"@);
            assert(0 <= i < f.len() && (f[i] == "OmeU"@ || f[i] == "OmengU"@));
        }
    }
}

fn special_format_exec(fs: &Vec<String>) -> (r: Option<String>)
    ensures
        opt_view(r) == special_format(fs@.map_values(|s: String| s@)),
{
    let ghost fv = fs@.map_values(|s: String| s@);
    let mut i: usize = 0;
    assert(fv.skip(0) =~= fv);
    while i < fs.len()
        invariant
            i <= fs.len(),
            fv == fs@.map_values(|s: String| s@),
            special_format(fv) == special_format(fv.skip(i as int)),
        decreases fs.len() - i,
    {
        let v = chars_of(fs[i].as_str());
        assert(fv.skip(i as int)[0] == fv[i as int]);
        if contains_str(&v, "Dolby") || contains_str(&v, "IMAX") || contains_str(&v, "HFR") {
            return Some(fs[i].clone());
        }
        assert(fv.skip(i as int).drop_first() =~= fv.skip(i + 1));
        i = i + 1;
    }
    assert(fv.skip(i as int) =~= Seq::<Seq<char>>::empty());
    None
}

/// Turns a session into a screening, reading its start time's wall clock
/// as Berlin local time.
pub fn parse_session(session: &YorckSession) -> (r: Result<Screening, SessionError>)
    ensures
        match r {
            Ok(s) => session_screening(session@) == Ok::<ScreeningV, SessionErrorV>(s@),
            Err(e) => session_screening(session@) == Err::<ScreeningV, SessionErrorV>(e@),
        },
{
    let (date, time) = match parse_rfc3339_wall_clock(session.start_time.as_str()) {
        Ok(x) => x,
        Err(e) => return Err(SessionError::UnreadableStartTime(session.start_time.clone(), e)),
    };
    let showtime = match berlin_to_utc(date, time) {
        Some(t) => t,
        None => return Err(SessionError::NoSingleLocalTime(session.start_time.clone())),
    };
    let fs = &session.formats;
    Ok(Screening {
        showtime: showtime,
        screening_type: special_format_exec(fs),
        is_ov: has_attribute(fs, "OV"),
        is_omu: has_attribute(fs, "OmU"),
        is_english_subs: has_attribute(fs, "OmeU") || has_attribute(fs, "OmengU"),
        is_3d: has_attribute_containing(fs, "3D"),
        booking_url: None,
    })
}

// ---------------------------------------------------------------------
// Grouping sessions by theater
// ---------------------------------------------------------------------

/// The last cinema of the list with that name (a later entry replaces an
/// earlier one).
pub open spec fn last_cinema(cs: Seq<YorckCinemaV>, name: Seq<char>) -> Option<YorckCinemaV>
    decreases cs.len(),
{
    if cs.len() == 0 {
        None
    } else if cs.last().name == name {
        Some(cs.last())
    } else {
        last_cinema(cs.drop_last(), name)
    }
}

pub open spec fn cinema_page_of(slug: Seq<char>) -> Seq<char> {
    "https://www.yorck.de/en/cinemas/"@ + slug
}

/// The theater of a cinema name, with what the cinemas page gives of it.
pub open spec fn yorck_theater_of(cs: Seq<YorckCinemaV>, name: Seq<char>) -> TheaterV {
    match last_cinema(cs, name) {
        Some(c) => TheaterV {
            external_id: name,
            name: name,
            city: Some("Berlin"@),
            address: if c.address.len() == 0 {
                None
            } else {
                Some(c.address)
            },
            url: match c.slug {
                Some(sl) => Some(cinema_page_of(sl)),
                None => None,
            },
            latitude: c.latitude,
            longitude: c.longitude,
        },
        None => TheaterV {
            external_id: name,
            name: name,
            city: Some("Berlin"@),
            address: None,
            url: None,
            latitude: None,
            longitude: None,
        },
    }
}

/// The movie record of a film.
pub open spec fn film_movie(f: YorckFilmV) -> MovieV {
    MovieV {
        external_id: Some(f.id),
        title: f.title,
        runtime_minutes: f.runtime,
        rating: match f.fsk {
            Some(x) => Some("FSK "@ + decimal(x as int)),
            None => None,
        },
    }
}

/// The position of the first movie with that id.
pub open spec fn find_movie(ms: Seq<MovieWithScreeningsV>, id: Seq<char>) -> Option<int>
    decreases ms.len(),
{
    if ms.len() == 0 {
        None
    } else {
        match find_movie(ms.drop_last(), id) {
            Some(j) => Some(j),
            None => if ms.last().movie.external_id == Some(id) {
                Some(ms.len() - 1)
            } else {
                None
            },
        }
    }
}

/// Adds a screening of a film to its movie, or adds the movie.
pub open spec fn add_screening(ms: Seq<MovieWithScreeningsV>, f: YorckFilmV, s: ScreeningV) -> Seq<MovieWithScreeningsV> {
    match find_movie(ms, f.id) {
        Some(j) => ms.update(j, MovieWithScreeningsV { movie: ms[j].movie, screenings: ms[j].screenings.push(s) }),
        None => ms.push(MovieWithScreeningsV { movie: film_movie(f), screenings: seq![s] }),
    }
}

/// The position of the first theater with that name.
pub open spec fn find_theater(ts: Seq<TheaterDataV>, name: Seq<char>) -> Option<int>
    decreases ts.len(),
{
    if ts.len() == 0 {
        None
    } else {
        match find_theater(ts.drop_last(), name) {
            Some(j) => Some(j),
            None => if ts.last().theater.name == name {
                Some(ts.len() - 1)
            } else {
                None
            },
        }
    }
}

/// Files a screening under its session's theater, adding the theater when
/// it is new.
pub open spec fn place(ts: Seq<TheaterDataV>, cs: Seq<YorckCinemaV>, f: YorckFilmV, sess: YorckSessionV, s: ScreeningV) -> Seq<TheaterDataV> {
    match find_theater(ts, sess.cinema_name) {
        Some(k) => ts.update(k, TheaterDataV { theater: ts[k].theater, movies: add_screening(ts[k].movies, f, s) }),
        None => ts.push(TheaterDataV { theater: yorck_theater_of(cs, sess.cinema_name), movies: add_screening(Seq::empty(), f, s) }),
    }
}

pub open spec fn sessions_fold(acc: Result<Seq<TheaterDataV>, SessionErrorV>, cs: Seq<YorckCinemaV>, f: YorckFilmV, ss: Seq<YorckSessionV>) -> Result<Seq<TheaterDataV>, SessionErrorV>
    decreases ss.len(),
{
    if ss.len() == 0 {
        acc
    } else {
        match sessions_fold(acc, cs, f, ss.drop_last()) {
            Err(e) => Err(e),
            Ok(ts) => match session_screening(ss.last()) {
                Err(e) => Err(e),
                Ok(s) => Ok(place(ts, cs, f, ss.last(), s)),
            },
        }
    }
}

pub open spec fn films_fold(acc: Result<Seq<TheaterDataV>, SessionErrorV>, cs: Seq<YorckCinemaV>, fs: Seq<YorckFilmV>) -> Result<Seq<TheaterDataV>, SessionErrorV>
    decreases fs.len(),
{
    if fs.len() == 0 {
        acc
    } else {
        sessions_fold(films_fold(acc, cs, fs.drop_last()), cs, fs.last(), fs.last().sessions)
    }
}

/// The theaters with their movies and screenings, in order of first
/// appearance; the first session that cannot be read makes the error.
pub open spec fn yorck_theaters_of(cs: Seq<YorckCinemaV>, fs: Seq<YorckFilmV>) -> Result<Seq<TheaterDataV>, SessionErrorV> {
    films_fold(Ok(Seq::empty()), cs, fs)
}

proof fn lemma_sessions_of_err(cs: Seq<YorckCinemaV>, f: YorckFilmV, ss: Seq<YorckSessionV>, e: SessionErrorV)
    ensures
        sessions_fold(Err(e), cs, f, ss) == Err::<Seq<TheaterDataV>, SessionErrorV>(e),
    decreases ss.len(),
{
    if ss.len() > 0 {
        lemma_sessions_of_err(cs, f, ss.drop_last(), e);
    }
}

proof fn lemma_sessions_err_stays(acc: Result<Seq<TheaterDataV>, SessionErrorV>, cs: Seq<YorckCinemaV>, f: YorckFilmV, ss: Seq<YorckSessionV>, k: int, e: SessionErrorV)
    requires
        0 <= k <= ss.len(),
        sessions_fold(acc, cs, f, ss.take(k)) == Err::<Seq<TheaterDataV>, SessionErrorV>(e),
    ensures
        sessions_fold(acc, cs, f, ss) == Err::<Seq<TheaterDataV>, SessionErrorV>(e),
    decreases ss.len() - k,
{
    if k < ss.len() {
        assert(ss.take(k + 1).drop_last() =~= ss.take(k));
        lemma_sessions_err_stays(acc, cs, f, ss, k + 1, e);
    } else {
        assert(ss.take(k) =~= ss);
    }
}

proof fn lemma_films_err_stays(acc: Result<Seq<TheaterDataV>, SessionErrorV>, cs: Seq<YorckCinemaV>, fs: Seq<YorckFilmV>, k: int, e: SessionErrorV)
    requires
        0 <= k <= fs.len(),
        films_fold(acc, cs, fs.take(k)) == Err::<Seq<TheaterDataV>, SessionErrorV>(e),
    ensures
        films_fold(acc, cs, fs) == Err::<Seq<TheaterDataV>, SessionErrorV>(e),
    decreases fs.len() - k,
{
    if k < fs.len() {
        assert(fs.take(k + 1).drop_last() =~= fs.take(k));
        lemma_sessions_of_err(cs, fs[k], fs[k].sessions, e);
        lemma_films_err_stays(acc, cs, fs, k + 1, e);
    } else {
        assert(fs.take(k) =~= fs);
    }
}

/// Movies keyed by film id, each with at least one screening.
pub open spec fn movies_keyed(ms: Seq<MovieWithScreeningsV>) -> bool {
    &&& forall|a: int, b: int|
        0 <= a < b < ms.len() ==> (#[trigger] ms[a]).movie.external_id != (#[trigger] ms[b]).movie.external_id
    &&& forall|a: int| 0 <= a < ms.len() ==> (#[trigger] ms[a]).screenings.len() > 0
}

/// Theaters keyed by name, each holding movies keyed by film id.
pub open spec fn well_grouped(ts: Seq<TheaterDataV>) -> bool {
    &&& forall|i: int, j: int|
        0 <= i < j < ts.len() ==> (#[trigger] ts[i]).theater.name != (#[trigger] ts[j]).theater.name
    &&& forall|i: int| 0 <= i < ts.len() ==> movies_keyed((#[trigger] ts[i]).movies)
}

proof fn lemma_find_movie(ms: Seq<MovieWithScreeningsV>, id: Seq<char>)
    ensures
        match find_movie(ms, id) {
            Some(j) => 0 <= j < ms.len() && ms[j].movie.external_id == Some(id),
            None => forall|a: int| 0 <= a < ms.len() ==> (#[trigger] ms[a]).movie.external_id != Some(id),
        },
    decreases ms.len(),
{
    if ms.len() > 0 {
        lemma_find_movie(ms.drop_last(), id);
        if find_movie(ms.drop_last(), id) is None {
            assert forall|a: int| 0 <= a < ms.len() - 1 implies (#[trigger] ms[a]).movie.external_id != Some(id) by {
                assert(ms.drop_last()[a] == ms[a]);
            }
        }
    }
}

proof fn lemma_find_theater(ts: Seq<TheaterDataV>, name: Seq<char>)
    ensures
        match find_theater(ts, name) {
            Some(j) => 0 <= j < ts.len() && ts[j].theater.name == name,
            None => forall|a: int| 0 <= a < ts.len() ==> (#[trigger] ts[a]).theater.name != name,
        },
    decreases ts.len(),
{
    if ts.len() > 0 {
        lemma_find_theater(ts.drop_last(), name);
        if find_theater(ts.drop_last(), name) is None {
            assert forall|a: int| 0 <= a < ts.len() - 1 implies (#[trigger] ts[a]).theater.name != name by {
                assert(ts.drop_last()[a] == ts[a]);
            }
        }
    }
}

proof fn lemma_add_screening_keyed(ms: Seq<MovieWithScreeningsV>, f: YorckFilmV, s: ScreeningV)
    requires
        movies_keyed(ms),
    ensures
        movies_keyed(add_screening(ms, f, s)),
{
    lemma_find_movie(ms, f.id);
    let r = add_screening(ms, f, s);
    match find_movie(ms, f.id) {
        Some(j) => {
            assert forall|a: int, b: int| 0 <= a < b < r.len() implies (#[trigger] r[a]).movie.external_id != (#[trigger] r[b]).movie.external_id by {
                assert(r[a].movie == ms[a].movie);
                assert(r[b].movie == ms[b].movie);
            }
            assert forall|a: int| 0 <= a < r.len() implies (#[trigger] r[a]).screenings.len() > 0 by {
                if a != j {
                    assert(r[a] == ms[a]);
                }
            }
        },
        None => {
            assert forall|a: int, b: int| 0 <= a < b < r.len() implies (#[trigger] r[a]).movie.external_id != (#[trigger] r[b]).movie.external_id by {
                if b < ms.len() {
                    assert(r[a] == ms[a] && r[b] == ms[b]);
                } else {
                    assert(r[a] == ms[a]);
                }
            }
            assert forall|a: int| 0 <= a < r.len() implies (#[trigger] r[a]).screenings.len() > 0 by {
                if a < ms.len() {
                    assert(r[a] == ms[a]);
                }
            }
        },
    }
}

proof fn lemma_place_grouped(ts: Seq<TheaterDataV>, cs: Seq<YorckCinemaV>, f: YorckFilmV, sess: YorckSessionV, s: ScreeningV)
    requires
        well_grouped(ts),
    ensures
        well_grouped(place(ts, cs, f, sess, s)),
{
    lemma_find_theater(ts, sess.cinema_name);
    let r = place(ts, cs, f, sess, s);
    match find_theater(ts, sess.cinema_name) {
        Some(k) => {
            lemma_add_screening_keyed(ts[k].movies, f, s);
            assert forall|i: int, j: int| 0 <= i < j < r.len() implies (#[trigger] r[i]).theater.name != (#[trigger] r[j]).theater.name by {
                assert(r[i].theater == ts[i].theater && r[j].theater == ts[j].theater);
            }
            assert forall|i: int| 0 <= i < r.len() implies movies_keyed((#[trigger] r[i]).movies) by {
                if i != k {
                    assert(r[i] == ts[i]);
                }
            }
        },
        None => {
            assert(movies_keyed(Seq::<MovieWithScreeningsV>::empty()));
            lemma_add_screening_keyed(Seq::empty(), f, s);
            assert(yorck_theater_of(cs, sess.cinema_name).name == sess.cinema_name);
            assert forall|i: int, j: int| 0 <= i < j < r.len() implies (#[trigger] r[i]).theater.name != (#[trigger] r[j]).theater.name by {
                if j < ts.len() {
                    assert(r[i] == ts[i] && r[j] == ts[j]);
                } else {
                    assert(r[i] == ts[i]);
                }
            }
            assert forall|i: int| 0 <= i < r.len() implies movies_keyed((#[trigger] r[i]).movies) by {
                if i < ts.len() {
                    assert(r[i] == ts[i]);
                }
            }
        },
    }
}

proof fn lemma_sessions_grouped(acc: Result<Seq<TheaterDataV>, SessionErrorV>, cs: Seq<YorckCinemaV>, f: YorckFilmV, ss: Seq<YorckSessionV>)
    requires
        acc matches Ok(ts) ==> well_grouped(ts),
    ensures
        sessions_fold(acc, cs, f, ss) matches Ok(ts) ==> well_grouped(ts),
    decreases ss.len(),
{
    if ss.len() > 0 {
        lemma_sessions_grouped(acc, cs, f, ss.drop_last());
        if let Ok(ts) = sessions_fold(acc, cs, f, ss.drop_last()) {
            if let Ok(s) = session_screening(ss.last()) {
                lemma_place_grouped(ts, cs, f, ss.last(), s);
            }
        }
    }
}

proof fn lemma_films_grouped(acc: Result<Seq<TheaterDataV>, SessionErrorV>, cs: Seq<YorckCinemaV>, fs: Seq<YorckFilmV>)
    requires
        acc matches Ok(ts) ==> well_grouped(ts),
    ensures
        films_fold(acc, cs, fs) matches Ok(ts) ==> well_grouped(ts),
    decreases fs.len(),
{
    if fs.len() > 0 {
        lemma_films_grouped(acc, cs, fs.drop_last());
        lemma_sessions_grouped(films_fold(acc, cs, fs.drop_last()), cs, fs.last(), fs.last().sessions);
    }
}

/// Grouping sessions gives each cinema name one theater, and each film one
/// movie per theater, every movie with at least one screening.
pub proof fn lemma_yorck_grouping(cs: Seq<YorckCinemaV>, fs: Seq<YorckFilmV>)
    ensures
        yorck_theaters_of(cs, fs) matches Ok(ts) ==> well_grouped(ts),
{
    lemma_films_grouped(Ok(Seq::empty()), cs, fs);
}

/// How many screenings the movies hold together.
pub open spec fn screening_count(ms: Seq<MovieWithScreeningsV>) -> int
    decreases ms.len(),
{
    if ms.len() == 0 {
        0
    } else {
        screening_count(ms.drop_last()) + ms.last().screenings.len()
    }
}

/// How many screenings the theaters hold over all their movies.
pub open spec fn theater_screening_count(ts: Seq<TheaterDataV>) -> int
    decreases ts.len(),
{
    if ts.len() == 0 {
        0
    } else {
        theater_screening_count(ts.drop_last()) + screening_count(ts.last().movies)
    }
}

/// How many sessions the films have together.
pub open spec fn session_count(fs: Seq<YorckFilmV>) -> int
    decreases fs.len(),
{
    if fs.len() == 0 {
        0
    } else {
        session_count(fs.drop_last()) + fs.last().sessions.len()
    }
}

proof fn lemma_screening_count_update(ms: Seq<MovieWithScreeningsV>, j: int, m: MovieWithScreeningsV)
    requires
        0 <= j < ms.len(),
    ensures
        screening_count(ms.update(j, m)) == screening_count(ms) - ms[j].screenings.len() + m.screenings.len(),
    decreases ms.len(),
{
    let u = ms.update(j, m);
    if j == ms.len() - 1 {
        assert(u.drop_last() =~= ms.drop_last());
    } else {
        lemma_screening_count_update(ms.drop_last(), j, m);
        assert(u.drop_last() =~= ms.drop_last().update(j, m));
    }
}

proof fn lemma_theater_count_update(ts: Seq<TheaterDataV>, j: int, t: TheaterDataV)
    requires
        0 <= j < ts.len(),
    ensures
        theater_screening_count(ts.update(j, t)) == theater_screening_count(ts) - screening_count(ts[j].movies)
            + screening_count(t.movies),
    decreases ts.len(),
{
    let u = ts.update(j, t);
    if j == ts.len() - 1 {
        assert(u.drop_last() =~= ts.drop_last());
    } else {
        lemma_theater_count_update(ts.drop_last(), j, t);
        assert(u.drop_last() =~= ts.drop_last().update(j, t));
    }
}

proof fn lemma_add_screening_count(ms: Seq<MovieWithScreeningsV>, f: YorckFilmV, s: ScreeningV)
    ensures
        screening_count(add_screening(ms, f, s)) == screening_count(ms) + 1,
{
    lemma_find_movie(ms, f.id);
    match find_movie(ms, f.id) {
        Some(j) => {
            lemma_screening_count_update(ms, j, MovieWithScreeningsV { movie: ms[j].movie, screenings: ms[j].screenings.push(s) });
        },
        None => {
            let m = MovieWithScreeningsV { movie: film_movie(f), screenings: seq![s] };
            assert(ms.push(m).drop_last() =~= ms);
        },
    }
}

proof fn lemma_place_count(ts: Seq<TheaterDataV>, cs: Seq<YorckCinemaV>, f: YorckFilmV, sess: YorckSessionV, s: ScreeningV)
    ensures
        theater_screening_count(place(ts, cs, f, sess, s)) == theater_screening_count(ts) + 1,
{
    lemma_find_theater(ts, sess.cinema_name);
    match find_theater(ts, sess.cinema_name) {
        Some(k) => {
            lemma_add_screening_count(ts[k].movies, f, s);
            lemma_theater_count_update(ts, k, TheaterDataV { theater: ts[k].theater, movies: add_screening(ts[k].movies, f, s) });
        },
        None => {
            lemma_add_screening_count(Seq::empty(), f, s);
            let t = TheaterDataV { theater: yorck_theater_of(cs, sess.cinema_name), movies: add_screening(Seq::empty(), f, s) };
            assert(ts.push(t).drop_last() =~= ts);
        },
    }
}

proof fn lemma_sessions_count(ts0: Seq<TheaterDataV>, cs: Seq<YorckCinemaV>, f: YorckFilmV, ss: Seq<YorckSessionV>)
    ensures
        sessions_fold(Ok(ts0), cs, f, ss) matches Ok(t2) ==> theater_screening_count(t2) == theater_screening_count(ts0) + ss.len(),
    decreases ss.len(),
{
    if ss.len() > 0 {
        lemma_sessions_count(ts0, cs, f, ss.drop_last());
        if let Ok(ts) = sessions_fold(Ok(ts0), cs, f, ss.drop_last()) {
            if let Ok(sc) = session_screening(ss.last()) {
                lemma_place_count(ts, cs, f, ss.last(), sc);
            }
        }
    }
}

proof fn lemma_films_count(ts0: Seq<TheaterDataV>, cs: Seq<YorckCinemaV>, fs: Seq<YorckFilmV>)
    ensures
        films_fold(Ok(ts0), cs, fs) matches Ok(t2) ==> theater_screening_count(t2) == theater_screening_count(ts0) + session_count(fs),
    decreases fs.len(),
{
    if fs.len() > 0 {
        lemma_films_count(ts0, cs, fs.drop_last());
        match films_fold(Ok(ts0), cs, fs.drop_last()) {
            Ok(t1) => {
                lemma_sessions_count(t1, cs, fs.last(), fs.last().sessions);
            },
            Err(e) => {
                lemma_sessions_of_err(cs, fs.last(), fs.last().sessions, e);
            },
        }
    }
}

/// No session is lost or doubled: when the grouping succeeds, its theaters
/// hold, over all their movies, exactly as many screenings as the films
/// have sessions.
pub proof fn lemma_yorck_every_session_kept(cs: Seq<YorckCinemaV>, fs: Seq<YorckFilmV>)
    ensures
        yorck_theaters_of(cs, fs) matches Ok(ts) ==> theater_screening_count(ts) == session_count(fs),
{
    lemma_films_count(Seq::empty(), cs, fs);
}

pub open spec fn theater_data_view(v: Seq<TheaterData>) -> Seq<TheaterDataV> {
    v.map_values(|t: TheaterData| t@)
}

pub open spec fn movies_view(v: Seq<MovieWithScreenings>) -> Seq<MovieWithScreeningsV> {
    v.map_values(|m: MovieWithScreenings| m@)
}

fn copy_string(s: &String) -> (r: String)
    ensures
        r@ == s@,
{
    string_of(&chars_of(s.as_str()))
}

fn copy_opt_string(o: &Option<String>) -> (r: Option<String>)
    ensures
        opt_view(r) == opt_view(*o),
{
    match o {
        Some(s) => Some(copy_string(s)),
        None => None,
    }
}

fn yorck_theater(cs: &Vec<YorckCinema>, name: &String) -> (r: Theater)
    ensures
        r@ == yorck_theater_of(cs@.map_values(|c: YorckCinema| c@), name@),
{
    let ghost cv = cs@.map_values(|c: YorckCinema| c@);
    let nv = chars_of(name.as_str());
    let mut found: Option<usize> = None;
    let mut i: usize = 0;
    while i < cs.len()
        invariant
            i <= cs.len(),
            cv == cs@.map_values(|c: YorckCinema| c@),
            nv@ == name@,
            match found {
                Some(j) => j < i && last_cinema(cv.take(i as int), name@) == Some(cv[j as int]),
                None => last_cinema(cv.take(i as int), name@) is None,
            },
        decreases cs.len() - i,
    {
        assert(cv.take(i + 1).drop_last() =~= cv.take(i as int));
        assert(cv.take(i + 1).last() == cs@[i as int]@);
        if chars_eq(&chars_of(cs[i].name.as_str()), &nv) {
            found = Some(i);
        }
        i = i + 1;
    }
    assert(cv.take(cs.len() as int) =~= cv);
    match found {
        Some(j) => {
            let c = &cs[j];
            let url = match &c.slug {
                Some(sl) => {
                    let mut v = chars_of("https://www.yorck.de/en/cinemas/");
                    push_chars(&mut v, &chars_of(sl.as_str()));
                    Some(string_of(&v))
                },
                None => None,
            };
            let av = chars_of(c.address.as_str());
            Theater {
                external_id: copy_string(name),
                name: copy_string(name),
                city: Some(string_of(&chars_of("Berlin"))),
                address: if av.len() == 0 {
                    None
                } else {
                    Some(string_of(&av))
                },
                url: url,
                latitude: copy_opt_string(&c.latitude),
                longitude: copy_opt_string(&c.longitude),
            }
        },
        None => Theater {
            external_id: copy_string(name),
            name: copy_string(name),
            city: Some(string_of(&chars_of("Berlin"))),
            address: None,
            url: None,
            latitude: None,
            longitude: None,
        },
    }
}

fn film_movie_exec(f: &YorckFilm) -> (r: Movie)
    ensures
        r@ == film_movie(f@),
{
    let rating = match f.fsk {
        Some(x) => {
            let mut v = chars_of("FSK ");
            push_decimal(&mut v, x as i64);
            Some(string_of(&v))
        },
        None => None,
    };
    Movie { external_id: Some(copy_string(&f.id)), title: copy_string(&f.title), runtime_minutes: f.runtime, rating: rating }
}

fn add_screening_exec(ms: &mut Vec<MovieWithScreenings>, f: &YorckFilm, s: Screening)
    ensures
        movies_view(final(ms)@) == add_screening(movies_view(old(ms)@), f@, s@),
{
    let ghost mv = movies_view(ms@);
    let idv = chars_of(f.id.as_str());
    let mut found: Option<usize> = None;
    let mut i: usize = 0;
    while i < ms.len()
        invariant
            i <= ms.len(),
            mv == movies_view(ms@),
            idv@ == f@.id,
            match found {
                Some(j) => j < i && find_movie(mv.take(i as int), f@.id) == Some(j as int),
                None => find_movie(mv.take(i as int), f@.id) is None,
            },
        decreases ms.len() - i,
    {
        assert(mv.take(i + 1).drop_last() =~= mv.take(i as int));
        assert(mv.take(i + 1).last() == ms@[i as int]@);
        if found.is_none() {
            match &ms[i].movie.external_id {
                Some(e) => {
                    if chars_eq(&chars_of(e.as_str()), &idv) {
                        found = Some(i);
                    }
                },
                None => {},
            }
        }
        i = i + 1;
    }
    assert(mv.take(ms.len() as int) =~= mv);
    let ghost sv = s@;
    match found {
        Some(j) => {
            let mut m = ms.remove(j);
            let ghost before = m@;
            m.screenings.push(s);
            assert(m@.screenings =~= before.screenings.push(sv));
            let ghost mm = m@;
            ms.insert(j, m);
            assert(movies_view(ms@) =~= mv.update(j as int, mm));
        },
        None => {
            let m = MovieWithScreenings { movie: film_movie_exec(f), screenings: vec![s] };
            let ghost mm = m@;
            assert(mm.screenings =~= seq![sv]);
            ms.push(m);
            assert(movies_view(ms@) =~= mv.push(mm));
        },
    }
}

fn place_exec(ts: &mut Vec<TheaterData>, cs: &Vec<YorckCinema>, f: &YorckFilm, sess: &YorckSession, s: Screening)
    ensures
        theater_data_view(final(ts)@) == place(theater_data_view(old(ts)@), cs@.map_values(|c: YorckCinema| c@), f@, sess@, s@),
{
    let ghost tv = theater_data_view(ts@);
    let nv = chars_of(sess.cinema_name.as_str());
    let mut found: Option<usize> = None;
    let mut i: usize = 0;
    while i < ts.len()
        invariant
            i <= ts.len(),
            tv == theater_data_view(ts@),
            nv@ == sess@.cinema_name,
            match found {
                Some(j) => j < i && find_theater(tv.take(i as int), sess@.cinema_name) == Some(j as int),
                None => find_theater(tv.take(i as int), sess@.cinema_name) is None,
            },
        decreases ts.len() - i,
    {
        assert(tv.take(i + 1).drop_last() =~= tv.take(i as int));
        assert(tv.take(i + 1).last() == ts@[i as int]@);
        if found.is_none() && chars_eq(&chars_of(ts[i].theater.name.as_str()), &nv) {
            found = Some(i);
        }
        i = i + 1;
    }
    assert(tv.take(ts.len() as int) =~= tv);
    match found {
        Some(k) => {
            let mut t = ts.remove(k);
            let ghost before = t@;
            add_screening_exec(&mut t.movies, f, s);
            let ghost tt = t@;
            assert(tt == TheaterDataV { theater: before.theater, movies: add_screening(before.movies, f@, s@) });
            ts.insert(k, t);
            assert(theater_data_view(ts@) =~= tv.update(k as int, tt));
        },
        None => {
            let mut movies: Vec<MovieWithScreenings> = Vec::new();
            assert(movies_view(movies@) =~= Seq::<MovieWithScreeningsV>::empty());
            add_screening_exec(&mut movies, f, s);
            let t = TheaterData { theater: yorck_theater(cs, &sess.cinema_name), movies: movies };
            let ghost tt = t@;
            ts.push(t);
            assert(theater_data_view(ts@) =~= tv.push(tt));
        },
    }
}

/// Groups the films' sessions by theater: one theater per cinema name (in
/// order of first appearance), with what the cinemas page gives of it, and
/// under it one movie per film with its screenings in order.  The first
/// session that cannot be read is the error.
pub fn yorck_theaters(cinemas: &Vec<YorckCinema>, films: &Vec<YorckFilm>) -> (r: Result<Vec<TheaterData>, SessionError>)
    ensures
        match r {
            Ok(ts) => yorck_theaters_of(cinemas@.map_values(|c: YorckCinema| c@), films@.map_values(|f: YorckFilm| f@)) == Ok::<Seq<TheaterDataV>, SessionErrorV>(theater_data_view(ts@)),
            Err(e) => yorck_theaters_of(cinemas@.map_values(|c: YorckCinema| c@), films@.map_values(|f: YorckFilm| f@)) == Err::<Seq<TheaterDataV>, SessionErrorV>(e@),
        },
{
    let ghost cv = cinemas@.map_values(|c: YorckCinema| c@);
    let ghost fv = films@.map_values(|f: YorckFilm| f@);
    let mut ts: Vec<TheaterData> = Vec::new();
    let mut i: usize = 0;
    assert(theater_data_view(ts@) =~= Seq::<TheaterDataV>::empty());
    while i < films.len()
        invariant
            i <= films.len(),
            cv == cinemas@.map_values(|c: YorckCinema| c@),
            fv == films@.map_values(|f: YorckFilm| f@),
            films_fold(Ok(Seq::empty()), cv, fv.take(i as int)) == Ok::<Seq<TheaterDataV>, SessionErrorV>(theater_data_view(ts@)),
        decreases films.len() - i,
    {
        assert(fv.take(i + 1).drop_last() =~= fv.take(i as int));
        assert(fv.take(i + 1).last() == films@[i as int]@);
        let f = &films[i];
        let ghost sv = f@.sessions;
        let ghost start = theater_data_view(ts@);
        let mut j: usize = 0;
        assert(sessions_fold(Ok(start), cv, f@, sv.take(0)) == Ok::<Seq<TheaterDataV>, SessionErrorV>(start));
        while j < f.sessions.len()
            invariant
                j <= f.sessions.len(),
                i < films.len(),
                cv == cinemas@.map_values(|c: YorckCinema| c@),
                fv == films@.map_values(|f: YorckFilm| f@),
                fv[i as int] == f@,
                films_fold(Ok(Seq::empty()), cv, fv.take(i as int)) == Ok::<Seq<TheaterDataV>, SessionErrorV>(start),
                sv == f@.sessions,
                sessions_fold(Ok(start), cv, f@, sv.take(j as int)) == Ok::<Seq<TheaterDataV>, SessionErrorV>(theater_data_view(ts@)),
            decreases f.sessions.len() - j,
        {
            assert(sv.take(j + 1).drop_last() =~= sv.take(j as int));
            assert(sv.take(j + 1).last() == f.sessions@[j as int]@);
            let sess = &f.sessions[j];
            match parse_session(sess) {
                Err(e) => {
                    proof {
                        lemma_sessions_err_stays(Ok(start), cv, f@, sv, j as int + 1, e@);
                        assert(fv.take(i + 1).drop_last() =~= fv.take(i as int));
                        assert(fv.take(i + 1).last() == f@);
                        assert(films_fold(Ok(Seq::empty()), cv, fv.take(i + 1)) == Err::<Seq<TheaterDataV>, SessionErrorV>(e@));
                        lemma_films_err_stays(Ok(Seq::empty()), cv, fv, i as int + 1, e@);
                    }
                    return Err(e);
                },
                Ok(s) => {
                    place_exec(&mut ts, cinemas, f, sess, s);
                },
            }
            j = j + 1;
        }
        assert(sv.take(f.sessions.len() as int) =~= sv);
        i = i + 1;
    }
    assert(fv.take(films.len() as int) =~= fv);
    Ok(ts)
}

} // verus!
