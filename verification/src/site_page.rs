//! The generated page: JSON-LD data, theater filter, movie cards, sitemap.
use crate::clock::{berlin_format, berlin_formatted, known_format, utc_date, utc_date_text};
use crate::models::opt_view;
use crate::page_text::{LD_ITEM_0, LD_ITEM_1, LD_ITEM_2, LD_ITEM_3, LD_DIRECTOR_0, LD_DIRECTOR_1, LD_YEAR_0, LD_YEAR_1, LD_DESCRIPTION_0, LD_DESCRIPTION_1, LD_IMAGE_0, LD_IMAGE_1, LD_ITEM_CLOSE, LD_SCRIPT_0, LD_SCRIPT_1, LD_SCRIPT_2, HEAD_0, HEAD_1, HEAD_2, HEAD_3, HEAD_4, HEAD_5, NAV_OPEN_0, ID_SELECT_ALL, NAV_OPEN_1, ID_SELECT_NONE, NAV_OPEN_2, CHAIN_OPEN_0, CHAIN_OPEN_1, THEATER_ITEM_0, THEATER_ITEM_1, THEATER_ITEM_2, THEATER_ITEM_3, CHAIN_CLOSE, NAV_CLOSE_0, ID_SEARCH, NAV_CLOSE_1, ID_FILTER_TODAY, NAV_CLOSE_2, ID_FILTER_TOMORROW, NAV_CLOSE_3, ID_SHOW_ALL_OV, NAV_CLOSE_4, POSTER_IMG_0, POSTER_IMG_1, POSTER_IMG_2, POSTER_SNEAK, POSTER_FESTIVAL, POSTER_INITIAL_0, POSTER_INITIAL_1, CARD_OPEN_0, CARD_OPEN_1, CARD_OPEN_2, CARD_OPEN_3, CARD_OPEN_4, CARD_OPEN_5, CARD_OPEN_6, CARD_OPEN_7, CARD_OPEN_10, ORIGINAL_TITLE_0, ORIGINAL_TITLE_1, GERMAN_TITLE_0, GERMAN_TITLE_1, LANG_OPEN, LANG_NAME_0, LANG_NAME_1, LANG_SEPARATOR, LANG_COUNTRIES_0, LANG_COUNTRIES_1, META_OPEN, META_GENRES_0, META_GENRES_1, META_RUNTIME_0, META_RUNTIME_1, CREW_OPEN, PERSON_LINK_0, PERSON_LINK_1, PERSON_LINK_2, CREW_DIRECTOR_0, CREW_DIRECTOR_1, CREW_WRITER_0, CREW_WRITER_1, CREW_CINEMATOGRAPHY_0, CREW_CINEMATOGRAPHY_1, OVERVIEW_0, OVERVIEW_1, FOOTER_0, FOOTER_1, FOOTER_2, TMDB_LINK_0, TMDB_LINK_1, SITEMAP_HOME_0, SITEMAP_HOME_1, SITEMAP_MOVIE_0, SITEMAP_MOVIE_1, SITEMAP_MOVIE_2, SITEMAP_CLOSE};
use crate::static_site::{chain_of, escape_html_chars, escape_json_chars, html_escaped, json_escaped};
use crate::text::{chars_eq, chars_eq_str, chars_of, contains, contains_str, occurs_at, decimal, join, lowercase, lowercase_chars, push_chars, push_count, push_decimal, string_of};
use crate::showtimes::{push_screenings, screenings_part};
use crate::theaters::{TheaterInfo, TheaterInfoV};
use vstd::prelude::*;

verus! {

/// A screening as the site shows it.
#[derive(Debug)]
pub struct ScreeningData {
    pub theater_name: String,
    pub normalized_theater_name: String,
    pub theater_url: Option<String>,
    /// Unix seconds
    pub showtime: i64,
    pub is_ov: bool,
    pub is_omu: bool,
    pub is_english_subs: bool,
    pub is_3d: bool,
    pub screening_type: Option<String>,
    pub booking_url: Option<String>,
}

pub struct ScreeningDataV {
    pub theater_name: Seq<char>,
    pub normalized_theater_name: Seq<char>,
    pub theater_url: Option<Seq<char>>,
    pub showtime: i64,
    pub is_ov: bool,
    pub is_omu: bool,
    pub is_english_subs: bool,
    pub is_3d: bool,
    pub screening_type: Option<Seq<char>>,
    pub booking_url: Option<Seq<char>>,
}

impl View for ScreeningData {
    type V = ScreeningDataV;

    open spec fn view(&self) -> ScreeningDataV {
        ScreeningDataV {
            theater_name: self.theater_name@,
            normalized_theater_name: self.normalized_theater_name@,
            theater_url: opt_view(self.theater_url),
            showtime: self.showtime,
            is_ov: self.is_ov,
            is_omu: self.is_omu,
            is_english_subs: self.is_english_subs,
            is_3d: self.is_3d,
            screening_type: opt_view(self.screening_type),
            booking_url: opt_view(self.booking_url),
        }
    }
}

/// A movie as the site shows it, with its OV screenings.
#[derive(Debug)]
pub struct MovieData {
    pub id: i64,
    pub title: String,
    pub english_title: Option<String>,
    pub original_title: Option<String>,
    pub german_title: Option<String>,
    pub original_language: Option<String>,
    pub production_countries: Option<String>,
    pub year: Option<i32>,
    pub runtime_minutes: Option<i32>,
    pub genres: Option<String>,
    pub overview: Option<String>,
    pub poster_url: Option<String>,
    pub tmdb_url: Option<String>,
    pub director: Option<String>,
    pub director_id: Option<i32>,
    pub writer: Option<String>,
    pub writer_id: Option<i32>,
    pub cinematographer: Option<String>,
    pub cinematographer_id: Option<i32>,
    pub screenings: Vec<ScreeningData>,
}

pub struct MovieDataV {
    pub id: i64,
    pub title: Seq<char>,
    pub english_title: Option<Seq<char>>,
    pub original_title: Option<Seq<char>>,
    pub german_title: Option<Seq<char>>,
    pub original_language: Option<Seq<char>>,
    pub production_countries: Option<Seq<char>>,
    pub year: Option<i32>,
    pub runtime_minutes: Option<i32>,
    pub genres: Option<Seq<char>>,
    pub overview: Option<Seq<char>>,
    pub poster_url: Option<Seq<char>>,
    pub tmdb_url: Option<Seq<char>>,
    pub director: Option<Seq<char>>,
    pub director_id: Option<i32>,
    pub writer: Option<Seq<char>>,
    pub writer_id: Option<i32>,
    pub cinematographer: Option<Seq<char>>,
    pub cinematographer_id: Option<i32>,
    pub screenings: Seq<ScreeningDataV>,
}

impl View for MovieData {
    type V = MovieDataV;

    open spec fn view(&self) -> MovieDataV {
        MovieDataV {
            id: self.id,
            title: self.title@,
            english_title: opt_view(self.english_title),
            original_title: opt_view(self.original_title),
            german_title: opt_view(self.german_title),
            original_language: opt_view(self.original_language),
            production_countries: opt_view(self.production_countries),
            year: self.year,
            runtime_minutes: self.runtime_minutes,
            genres: opt_view(self.genres),
            overview: opt_view(self.overview),
            poster_url: opt_view(self.poster_url),
            tmdb_url: opt_view(self.tmdb_url),
            director: opt_view(self.director),
            director_id: self.director_id,
            writer: opt_view(self.writer),
            writer_id: self.writer_id,
            cinematographer: opt_view(self.cinematographer),
            cinematographer_id: self.cinematographer_id,
            screenings: self.screenings@.map_values(|s: ScreeningData| s@),
        }
    }
}

pub open spec fn movie_views(s: Seq<MovieData>) -> Seq<MovieDataV> {
    s.map_values(|m: MovieData| m@)
}

pub open spec fn or_empty(o: Option<Seq<char>>) -> Seq<char> {
    match o {
        Some(s) => s,
        None => Seq::empty(),
    }
}

/// The title shown: English title, else original title, else the scraped title.
pub open spec fn display_title_of(m: MovieDataV) -> Seq<char> {
    match m.english_title {
        Some(e) => e,
        None => match m.original_title {
            Some(o) => o,
            None => m.title,
        },
    }
}

/// A Berlin-time rendering of an instant, empty outside chrono's range.
pub open spec fn shown(ts: i64, fmt: Seq<char>) -> Seq<char> {
    or_empty(berlin_formatted(ts, fmt))
}

// ---------------------------------------------------------------------
// Output helpers
// ---------------------------------------------------------------------

pub(crate) fn lit(out: &mut Vec<char>, s: &str)
    ensures
        final(out)@ == old(out)@ + s@,
{
    let v = chars_of(s);
    push_chars(out, &v);
}

pub(crate) fn put_esc(out: &mut Vec<char>, s: &str)
    ensures
        final(out)@ == old(out)@ + html_escaped(s@),
{
    let v = chars_of(s);
    let e = escape_html_chars(&v);
    push_chars(out, &e);
}

pub(crate) fn put_esc_chars(out: &mut Vec<char>, v: &Vec<char>)
    ensures
        final(out)@ == old(out)@ + html_escaped(v@),
{
    let e = escape_html_chars(v);
    push_chars(out, &e);
}

fn put_json(out: &mut Vec<char>, v: &Vec<char>)
    ensures
        final(out)@ == old(out)@ + json_escaped(v@),
{
    let e = escape_json_chars(v);
    push_chars(out, &e);
}

pub(crate) fn put_time(out: &mut Vec<char>, ts: i64, fmt: &str)
    requires
        known_format(fmt@),
    ensures
        final(out)@ == old(out)@ + shown(ts, fmt@),
{
    match berlin_format(ts, fmt) {
        Some(s) => lit(out, s.as_str()),
        None => {
            assert(old(out)@ + Seq::<char>::empty() =~= old(out)@);
        },
    }
}

pub(crate) fn display_title(m: &MovieData) -> (r: Vec<char>)
    ensures
        r@ == display_title_of(m@),
{
    match &m.english_title {
        Some(e) => chars_of(e.as_str()),
        None => match &m.original_title {
            Some(o) => chars_of(o.as_str()),
            None => chars_of(m.title.as_str()),
        },
    }
}

// ---------------------------------------------------------------------
// JSON-LD
// ---------------------------------------------------------------------

/// The first 200 characters.
pub open spec fn first_200(s: Seq<char>) -> Seq<char> {
    if s.len() > 200 {
        s.take(200)
    } else {
        s
    }
}

pub open spec fn ld_head(i: int, m: MovieDataV) -> Seq<char> {
    (if i > 0 {
        ","@
    } else {
        Seq::empty()
    }) + LD_ITEM_0@ + decimal(i + 1) + LD_ITEM_1@ + json_escaped(display_title_of(m)) + LD_ITEM_2@
        + decimal(m.id as int) + LD_ITEM_3@
}

pub open spec fn ld_director(m: MovieDataV) -> Seq<char> {
    match m.director {
        Some(d) => LD_DIRECTOR_0@ + json_escaped(d) + LD_DIRECTOR_1@,
        None => Seq::empty(),
    }
}

pub open spec fn ld_year(m: MovieDataV) -> Seq<char> {
    match m.year {
        Some(y) => LD_YEAR_0@ + decimal(y as int) + LD_YEAR_1@,
        None => Seq::empty(),
    }
}

pub open spec fn ld_description(m: MovieDataV) -> Seq<char> {
    match m.overview {
        Some(o) => if o.len() > 0 {
            LD_DESCRIPTION_0@ + json_escaped(first_200(o)) + LD_DESCRIPTION_1@
        } else {
            Seq::empty()
        },
        None => Seq::empty(),
    }
}

pub open spec fn ld_image(m: MovieDataV) -> Seq<char> {
    match m.poster_url {
        Some(p) => LD_IMAGE_0@ + json_escaped(p) + LD_IMAGE_1@,
        None => Seq::empty(),
    }
}

/// One `ListItem` of the JSON-LD list, for the movie at position `i`:
/// name and anchor, then director, year, description (first 200
/// characters of the overview) and image where known.
pub open spec fn ld_item(i: int, m: MovieDataV) -> Seq<char> {
    ld_head(i, m) + ld_director(m) + ld_year(m) + ld_description(m) + ld_image(m) + LD_ITEM_CLOSE@
}

/// The list items of the first `movies.len()` movies.
pub open spec fn ld_items(movies: Seq<MovieDataV>) -> Seq<char>
    decreases movies.len(),
{
    if movies.len() == 0 {
        Seq::empty()
    } else {
        ld_items(movies.drop_last()) + ld_item(movies.len() - 1, movies.last())
    }
}

/// The JSON-LD script: the site, and the list of (at most 50) movies.
pub open spec fn json_ld_of(movies: Seq<MovieDataV>) -> Seq<char> {
    let n = if movies.len() < 50 {
        movies.len() as int
    } else {
        50
    };
    LD_SCRIPT_0@ + decimal(movies.len() as int) + LD_SCRIPT_1@ + ld_items(movies.take(n))
        + LD_SCRIPT_2@
}

fn push_ld_head(out: &mut Vec<char>, i: usize, m: &MovieData)
    requires
        i < 50,
    ensures
        final(out)@ == old(out)@ + ld_head(i as int, m@),
{
    if i > 0 {
        lit(out, ",");
    }
    lit(out, LD_ITEM_0);
    push_decimal(out, (i + 1) as i64);
    lit(out, LD_ITEM_1);
    let t = display_title(m);
    put_json(out, &t);
    lit(out, LD_ITEM_2);
    push_decimal(out, m.id);
    lit(out, LD_ITEM_3);
    assert(out@ =~= old(out)@ + ld_head(i as int, m@));
}

fn push_ld_details(out: &mut Vec<char>, m: &MovieData)
    ensures
        final(out)@ == old(out)@ + ld_director(m@) + ld_year(m@) + ld_description(m@) + ld_image(m@),
{
    let ghost o0 = out@;
    match &m.director {
        Some(d) => {
            lit(out, LD_DIRECTOR_0);
            let dv = chars_of(d.as_str());
            put_json(out, &dv);
            lit(out, LD_DIRECTOR_1);
        },
        None => {},
    }
    assert(out@ =~= o0 + ld_director(m@));
    let ghost o1 = out@;
    match m.year {
        Some(y) => {
            lit(out, LD_YEAR_0);
            push_decimal(out, y as i64);
            lit(out, LD_YEAR_1);
        },
        None => {},
    }
    assert(out@ =~= o1 + ld_year(m@));
    let ghost o2 = out@;
    match &m.overview {
        Some(o) => {
            let ov = chars_of(o.as_str());
            if ov.len() > 0 {
                lit(out, LD_DESCRIPTION_0);
                let t = take_chars(&ov, 200);
                put_json(out, &t);
                lit(out, LD_DESCRIPTION_1);
            }
        },
        None => {},
    }
    assert(out@ =~= o2 + ld_description(m@));
    let ghost o3 = out@;
    match &m.poster_url {
        Some(p) => {
            lit(out, LD_IMAGE_0);
            let pv = chars_of(p.as_str());
            put_json(out, &pv);
            lit(out, LD_IMAGE_1);
        },
        None => {},
    }
    assert(out@ =~= o3 + ld_image(m@));
    assert(out@ =~= o0 + ld_director(m@) + ld_year(m@) + ld_description(m@) + ld_image(m@));
}

fn push_ld_item(out: &mut Vec<char>, i: usize, m: &MovieData)
    requires
        i < 50,
    ensures
        final(out)@ == old(out)@ + ld_item(i as int, m@),
{
    push_ld_head(out, i, m);
    push_ld_details(out, m);
    lit(out, LD_ITEM_CLOSE);
    assert(out@ =~= old(out)@ + ld_item(i as int, m@));
}

/// The first `n` characters (all of them when there are fewer).
pub fn take_chars(v: &Vec<char>, n: usize) -> (r: Vec<char>)
    ensures
        r@ == (if v@.len() > n {
            v@.take(n as int)
        } else {
            v@
        }),
{
    let mut r: Vec<char> = Vec::new();
    let mut i: usize = 0;
    while i < v.len() && i < n
        invariant
            i <= v.len(),
            i <= n,
            r@ == v@.take(i as int),
        decreases v.len() - i,
    {
        r.push(v[i]);
        assert(v@.take(i as int + 1) =~= v@.take(i as int).push(v@[i as int]));
        i = i + 1;
    }
    assert(v@.len() <= n ==> v@.take(i as int) =~= v@);
    r
}

/// Generates JSON-LD structured data for SEO.
pub fn generate_json_ld(movies: &Vec<MovieData>) -> (r: String)
    ensures
        r@ == json_ld_of(movie_views(movies@)),
{
    let ghost mv = movie_views(movies@);
    let mut out: Vec<char> = Vec::new();
    lit(&mut out, LD_SCRIPT_0);
    push_count(&mut out, movies.len());
    lit(&mut out, LD_SCRIPT_1);
    let ghost head = out@;
    let max_items: usize = if movies.len() < 50 {
        movies.len()
    } else {
        50
    };
    let mut i: usize = 0;
    while i < max_items
        invariant
            i <= max_items <= movies.len(),
            max_items <= 50,
            mv == movie_views(movies@),
            out@ == head + ld_items(mv.take(i as int)),
        decreases max_items - i,
    {
        let ghost before = out@;
        push_ld_item(&mut out, i, &movies[i]);
        proof {
            assert(mv.take(i + 1).drop_last() =~= mv.take(i as int));
            assert(mv.take(i + 1).last() == movies@[i as int]@);
            assert(out@ =~= head + ld_items(mv.take(i + 1)));
        }
        i = i + 1;
    }
    lit(&mut out, LD_SCRIPT_2);
    assert(out@ =~= json_ld_of(mv));
    string_of(&out)
}


// ---------------------------------------------------------------------
// Head and theater filter
// ---------------------------------------------------------------------

/// The page description: counts of films and cinemas.
pub open spec fn meta_description_of(movie_count: int, theater_count: int) -> Seq<char> {
    "Find original version (OV) and subtitled (OmU) movie screenings in Berlin. "@ + decimal(
        movie_count,
    ) + " films at "@ + decimal(theater_count)
        + " cinemas, updated twice daily. Free, ad-free, and easy to use."@
}

pub open spec fn head_of(meta: Seq<char>, cache_version: i64, json_ld: Seq<char>) -> Seq<char> {
    HEAD_0@ + html_escaped(meta) + HEAD_1@ + html_escaped(meta) + HEAD_2@ + html_escaped(meta)
        + HEAD_3@ + decimal(cache_version as int) + HEAD_4@ + json_ld + HEAD_5@
}

#[verifier::rlimit(40)]
fn push_head(out: &mut Vec<char>, movies: &Vec<MovieData>, theater_count: usize, cache_version: i64)
    ensures
        final(out)@ == old(out)@ + head_of(
            meta_description_of(movies.len() as int, theater_count as int),
            cache_version,
            json_ld_of(movie_views(movies@)),
        ),
{
    let mut meta: Vec<char> = Vec::new();
    lit(&mut meta, "Find original version (OV) and subtitled (OmU) movie screenings in Berlin. ");
    push_count(&mut meta, movies.len());
    lit(&mut meta, " films at ");
    push_count(&mut meta, theater_count);
    lit(&mut meta, " cinemas, updated twice daily. Free, ad-free, and easy to use.");
    assert(meta@ =~= meta_description_of(movies.len() as int, theater_count as int));
    let json_ld = generate_json_ld(movies);
    let ghost o0 = out@;
    lit(out, HEAD_0);
    put_esc_chars(out, &meta);
    lit(out, HEAD_1);
    put_esc_chars(out, &meta);
    lit(out, HEAD_2);
    put_esc_chars(out, &meta);
    lit(out, HEAD_3);
    push_decimal(out, cache_version);
    lit(out, HEAD_4);
    lit(out, json_ld.as_str());
    lit(out, HEAD_5);
    assert(out@ =~= o0 + head_of(meta@, cache_version, json_ld@));
}

/// The chains in the order the filter lists them.
pub open spec fn chain_order() -> Seq<Seq<char>> {
    seq![
        "Yorck Kinos"@,
        "CineStar"@,
        "UCI"@,
        "CinemaxX"@,
        "Cineplex"@,
        "CineMotion"@,
        "Independent Cinemas"@,
    ]
}

/// Every chain a theater can be given is one of the filter's sections, and
/// the sections are distinct: each theater is offered in exactly one.
pub proof fn lemma_chain_listed(name_lower: Seq<char>)
    ensures
        exists|k: int| 0 <= k < 7 && chain_order()[k] == chain_of(name_lower),
        forall|a: int, b: int| 0 <= a < b < 7 ==> chain_order()[a] != chain_order()[b],
{
    reveal_strlit("Yorck Kinos");
    reveal_strlit("CineStar");
    reveal_strlit("UCI");
    reveal_strlit("CinemaxX");
    reveal_strlit("Cineplex");
    reveal_strlit("CineMotion");
    reveal_strlit("Independent Cinemas");
    let c = chain_of(name_lower);
    if c == "UCI"@ {
        assert(chain_order()[2] == c);
    } else if c == "CineStar"@ {
        assert(chain_order()[1] == c);
    } else if c == "CinemaxX"@ {
        assert(chain_order()[3] == c);
    } else if c == "Cineplex"@ {
        assert(chain_order()[4] == c);
    } else if c == "CineMotion"@ {
        assert(chain_order()[5] == c);
    } else if c == "Yorck Kinos"@ {
        assert(chain_order()[0] == c);
    } else {
        assert(chain_order()[6] == c);
    }
    assert forall|a: int, b: int| 0 <= a < b < 7 implies chain_order()[a] != chain_order()[b] by {
        assert(chain_order()[a].len() != chain_order()[b].len() || chain_order()[a][0] != chain_order()[b][0]
            || chain_order()[a][4] != chain_order()[b][4]);
    }
}

/// The theaters of one chain, in their listed order.
pub open spec fn with_chain(ts: Seq<TheaterInfoV>, chain: Seq<char>) -> Seq<TheaterInfoV>
    decreases ts.len(),
{
    if ts.len() == 0 {
        Seq::empty()
    } else if ts.last().chain == chain {
        with_chain(ts.drop_last(), chain).push(ts.last())
    } else {
        with_chain(ts.drop_last(), chain)
    }
}

pub open spec fn theater_item(t: TheaterInfoV) -> Seq<char> {
    THEATER_ITEM_0@ + html_escaped(t.normalized_name) + THEATER_ITEM_1@ + html_escaped(t.display_name)
        + THEATER_ITEM_2@ + html_escaped(t.display_name) + THEATER_ITEM_3@
}

pub open spec fn theater_items(ts: Seq<TheaterInfoV>) -> Seq<char>
    decreases ts.len(),
{
    if ts.len() == 0 {
        Seq::empty()
    } else {
        theater_items(ts.drop_last()) + theater_item(ts.last())
    }
}

/// A chain's heading and checkboxes, or nothing when it has no theaters.
pub open spec fn chain_section(ts: Seq<TheaterInfoV>, chain: Seq<char>) -> Seq<char> {
    let g = with_chain(ts, chain);
    if g.len() == 0 {
        Seq::empty()
    } else {
        CHAIN_OPEN_0@ + html_escaped(chain) + CHAIN_OPEN_1@ + theater_items(g) + CHAIN_CLOSE@
    }
}

/// The sections of the first `k` chains.
pub open spec fn chain_sections(ts: Seq<TheaterInfoV>, k: int) -> Seq<char>
    decreases k,
{
    if k <= 0 {
        Seq::empty()
    } else {
        chain_sections(ts, k - 1) + chain_section(ts, chain_order()[k - 1])
    }
}

/// The start of the theater filter, with its select-all and clear buttons.
pub open spec fn nav_open() -> Seq<char> {
    NAV_OPEN_0@ + ID_SELECT_ALL@ + NAV_OPEN_1@ + ID_SELECT_NONE@ + NAV_OPEN_2@
}

/// The end of the theater filter: the search box, the date filters and the
/// show-all toggle.
pub open spec fn nav_close() -> Seq<char> {
    NAV_CLOSE_0@ + ID_SEARCH@ + NAV_CLOSE_1@ + ID_FILTER_TODAY@ + NAV_CLOSE_2@ + ID_FILTER_TOMORROW@
        + NAV_CLOSE_3@ + ID_SHOW_ALL_OV@ + NAV_CLOSE_4@
}

/// The theater filter: one section per chain, in chain order.
pub open spec fn theater_filter_of(ts: Seq<TheaterInfoV>) -> Seq<char> {
    nav_open() + chain_sections(ts, 7) + nav_close()
}

fn push_chain_section(out: &mut Vec<char>, theaters: &Vec<TheaterInfo>, chain: &str)
    ensures
        final(out)@ == old(out)@ + chain_section(theaters@.map_values(|t: TheaterInfo| t@), chain@),
{
    let ghost tv = theaters@.map_values(|t: TheaterInfo| t@);
    let cv = chars_of(chain);
    let mut items: Vec<char> = Vec::new();
    let mut count: usize = 0;
    let mut i: usize = 0;
    while i < theaters.len()
        invariant
            i <= theaters.len(),
            tv == theaters@.map_values(|t: TheaterInfo| t@),
            cv@ == chain@,
            items@ == theater_items(with_chain(tv.take(i as int), chain@)),
            count == with_chain(tv.take(i as int), chain@).len(),
            count <= i,
        decreases theaters.len() - i,
    {
        assert(tv.take(i + 1).drop_last() =~= tv.take(i as int));
        assert(tv.take(i + 1).last() == theaters@[i as int]@);
        let t = &theaters[i];
        let tc = chars_of(t.chain.as_str());
        let ghost g = with_chain(tv.take(i as int), chain@);
        if chars_eq(&tc, &cv) {
            assert(with_chain(tv.take(i + 1), chain@) == g.push(t@));
            assert(g.push(t@).drop_last() =~= g);
            let ghost before = items@;
            lit(&mut items, THEATER_ITEM_0);
            put_esc(&mut items, t.normalized_name.as_str());
            lit(&mut items, THEATER_ITEM_1);
            put_esc(&mut items, t.display_name.as_str());
            lit(&mut items, THEATER_ITEM_2);
            put_esc(&mut items, t.display_name.as_str());
            lit(&mut items, THEATER_ITEM_3);
            assert(items@ =~= before + theater_item(t@));
            count = count + 1;
        } else {
            assert(with_chain(tv.take(i + 1), chain@) == g);
        }
        i = i + 1;
    }
    assert(tv.take(theaters.len() as int) =~= tv);
    if count > 0 {
        let ghost o0 = out@;
        lit(out, CHAIN_OPEN_0);
        put_esc(out, chain);
        lit(out, CHAIN_OPEN_1);
        push_chars(out, &items);
        lit(out, CHAIN_CLOSE);
        assert(out@ =~= o0 + chain_section(tv, chain@));
    } else {
        assert(out@ =~= old(out)@ + chain_section(tv, chain@));
    }
}

fn push_theater_filter(out: &mut Vec<char>, theaters: &Vec<TheaterInfo>)
    ensures
        final(out)@ == old(out)@ + theater_filter_of(theaters@.map_values(|t: TheaterInfo| t@)),
{
    let ghost tv = theaters@.map_values(|t: TheaterInfo| t@);
    let chains: [&str; 7] = [
        "Yorck Kinos",
        "CineStar",
        "UCI",
        "CinemaxX",
        "Cineplex",
        "CineMotion",
        "Independent Cinemas",
    ];
    assert(chains@.map_values(|c: &str| c@) =~= chain_order());
    lit(out, NAV_OPEN_0);
    lit(out, ID_SELECT_ALL);
    lit(out, NAV_OPEN_1);
    lit(out, ID_SELECT_NONE);
    lit(out, NAV_OPEN_2);
    assert(out@ =~= old(out)@ + nav_open());
    let ghost base = out@;
    let mut k: usize = 0;
    while k < 7
        invariant
            k <= 7,
            tv == theaters@.map_values(|t: TheaterInfo| t@),
            chains@.map_values(|c: &str| c@) == chain_order(),
            out@ == base + chain_sections(tv, k as int),
        decreases 7 - k,
    {
        assert(chain_order()[k as int] == chains@[k as int]@);
        push_chain_section(out, theaters, chains[k]);
        assert(out@ =~= base + chain_sections(tv, k + 1));
        k = k + 1;
    }
    let ghost mid = out@;
    lit(out, NAV_CLOSE_0);
    lit(out, ID_SEARCH);
    lit(out, NAV_CLOSE_1);
    lit(out, ID_FILTER_TODAY);
    lit(out, NAV_CLOSE_2);
    lit(out, ID_FILTER_TOMORROW);
    lit(out, NAV_CLOSE_3);
    lit(out, ID_SHOW_ALL_OV);
    lit(out, NAV_CLOSE_4);
    assert(out@ =~= mid + nav_close());
    assert(out@ =~= old(out)@ + theater_filter_of(tv));
}

// ---------------------------------------------------------------------
// Language names
// ---------------------------------------------------------------------

/// Language codes with the names shown for them.
pub open spec fn language_table() -> Seq<(Seq<char>, Seq<char>)> {
    seq![
        ("en"@, "English"@),
        ("de"@, "German"@),
        ("fr"@, "French"@),
        ("es"@, "Spanish"@),
        ("it"@, "Italian"@),
        ("ja"@, "Japanese"@),
        ("ko"@, "Korean"@),
        ("zh"@, "Chinese"@),
        ("ru"@, "Russian"@),
        ("pt"@, "Portuguese"@),
        ("hi"@, "Hindi"@),
        ("ar"@, "Arabic"@),
        ("tr"@, "Turkish"@),
        ("pl"@, "Polish"@),
        ("nl"@, "Dutch"@),
        ("sv"@, "Swedish"@),
        ("da"@, "Danish"@),
        ("no"@, "Norwegian"@),
        ("fi"@, "Finnish"@),
        ("cs"@, "Czech"@),
        ("hu"@, "Hungarian"@),
        ("el"@, "Greek"@),
        ("he"@, "Hebrew"@),
        ("th"@, "Thai"@),
        ("vi"@, "Vietnamese"@),
        ("id"@, "Indonesian"@),
        ("uk"@, "Ukrainian"@),
        ("ro"@, "Romanian"@),
        ("fa"@, "Persian"@),
        ("bn"@, "Bengali"@),
        ("ta"@, "Tamil"@),
        ("te"@, "Telugu"@),
        ("mr"@, "Marathi"@),
        ("cn"@, "Cantonese"@),
        ("tl"@, "Tagalog"@)
    ]
}

/// The name of a language code from the table, else the code itself.
pub open spec fn language_name_from(code: Seq<char>, table: Seq<(Seq<char>, Seq<char>)>) -> Seq<char>
    decreases table.len(),
{
    if table.len() == 0 {
        code
    } else if table[0].0 == code {
        table[0].1
    } else {
        language_name_from(code, table.drop_first())
    }
}

pub open spec fn language_name(code: Seq<char>) -> Seq<char> {
    language_name_from(code, language_table())
}

fn language_name_exec(code: &str) -> (r: Vec<char>)
    ensures
        r@ == language_name(code@),
{
    let table: [(&str, &str); 35] = [
        ("en", "English"),
        ("de", "German"),
        ("fr", "French"),
        ("es", "Spanish"),
        ("it", "Italian"),
        ("ja", "Japanese"),
        ("ko", "Korean"),
        ("zh", "Chinese"),
        ("ru", "Russian"),
        ("pt", "Portuguese"),
        ("hi", "Hindi"),
        ("ar", "Arabic"),
        ("tr", "Turkish"),
        ("pl", "Polish"),
        ("nl", "Dutch"),
        ("sv", "Swedish"),
        ("da", "Danish"),
        ("no", "Norwegian"),
        ("fi", "Finnish"),
        ("cs", "Czech"),
        ("hu", "Hungarian"),
        ("el", "Greek"),
        ("he", "Hebrew"),
        ("th", "Thai"),
        ("vi", "Vietnamese"),
        ("id", "Indonesian"),
        ("uk", "Ukrainian"),
        ("ro", "Romanian"),
        ("fa", "Persian"),
        ("bn", "Bengali"),
        ("ta", "Tamil"),
        ("te", "Telugu"),
        ("mr", "Marathi"),
        ("cn", "Cantonese"),
        ("tl", "Tagalog")
    ];
    let ghost tv = table@.map_values(|p: (&str, &str)| (p.0@, p.1@));
    assert(tv =~= language_table());
    let cv = chars_of(code);
    let mut i: usize = 0;
    assert(tv.skip(0) =~= tv);
    while i < 35
        invariant
            i <= 35,
            cv@ == code@,
            tv == table@.map_values(|p: (&str, &str)| (p.0@, p.1@)),
            tv == language_table(),
            language_name_from(code@, tv) == language_name_from(code@, tv.skip(i as int)),
        decreases 35 - i,
    {
        let (k, v) = table[i];
        assert(tv.skip(i as int)[0] == (k@, v@));
        if chars_eq_str(&cv, k) {
            assert(language_name_from(code@, tv.skip(i as int)) == v@);
            return chars_of(v);
        }
        assert(tv.skip(i as int).drop_first() =~= tv.skip(i + 1));
        i = i + 1;
    }
    assert(tv.skip(35 as int) =~= Seq::<(Seq<char>, Seq<char>)>::empty());
    cv
}


// ---------------------------------------------------------------------
// Lists of strings
// ---------------------------------------------------------------------

/// The strings in order of first appearance, each once.
pub open spec fn distinct(s: Seq<Seq<char>>) -> Seq<Seq<char>>
    decreases s.len(),
{
    if s.len() == 0 {
        Seq::empty()
    } else {
        let r = distinct(s.drop_last());
        if r.contains(s.last()) {
            r
        } else {
            r.push(s.last())
        }
    }
}

pub(crate) fn list_contains(list: &Vec<Vec<char>>, x: &Vec<char>) -> (b: bool)
    ensures
        b == list@.map_values(|v: Vec<char>| v@).contains(x@),
{
    let ghost lv = list@.map_values(|v: Vec<char>| v@);
    let mut i: usize = 0;
    while i < list.len()
        invariant
            i <= list.len(),
            lv == list@.map_values(|v: Vec<char>| v@),
            forall|j: int| 0 <= j < i ==> lv[j] != x@,
        decreases list.len() - i,
    {
        if chars_eq(&list[i], x) {
            assert(lv[i as int] == x@);
            return true;
        }
        i = i + 1;
    }
    false
}

/// Adds `x` to a list of distinct strings unless it is there.
fn add_distinct(list: &mut Vec<Vec<char>>, x: Vec<char>, Ghost(seen): Ghost<Seq<Seq<char>>>)
    requires
        old(list)@.map_values(|v: Vec<char>| v@) == distinct(seen),
    ensures
        final(list)@.map_values(|v: Vec<char>| v@) == distinct(seen.push(x@)),
{
    assert(seen.push(x@).drop_last() =~= seen);
    if !list_contains(list, &x) {
        let ghost before = list@.map_values(|v: Vec<char>| v@);
        let ghost xv = x@;
        list.push(x);
        assert(list@.map_values(|v: Vec<char>| v@) =~= before.push(xv));
    }
}

/// Writes the strings separated by `sep`.
pub(crate) fn push_joined(out: &mut Vec<char>, list: &Vec<Vec<char>>, sep: &str)
    ensures
        final(out)@ == old(out)@ + join(list@.map_values(|v: Vec<char>| v@), sep@),
{
    let ghost lv = list@.map_values(|v: Vec<char>| v@);
    let ghost base = out@;
    let mut i: usize = 0;
    while i < list.len()
        invariant
            i <= list.len(),
            lv == list@.map_values(|v: Vec<char>| v@),
            out@ == base + join(lv.take(i as int), sep@),
        decreases list.len() - i,
    {
        assert(lv.take(i + 1).drop_last() =~= lv.take(i as int));
        if i > 0 {
            lit(out, sep);
        }
        push_chars(out, &list[i]);
        proof {
            if i == 0 {
                assert(lv.take(0) =~= Seq::<Seq<char>>::empty());
                assert(out@ =~= base + lv[0]);
            } else {
                assert(out@ =~= base + (join(lv.take(i as int), sep@) + sep@ + lv[i as int]));
            }
        }
        i = i + 1;
    }
    assert(lv.take(list.len() as int) =~= lv);
}

// ---------------------------------------------------------------------
// Card header
// ---------------------------------------------------------------------

pub open spec fn screening_keys(ss: Seq<ScreeningDataV>) -> Seq<Seq<char>> {
    ss.map_values(|s: ScreeningDataV| s.normalized_theater_name)
}

pub open spec fn screening_days(ss: Seq<ScreeningDataV>) -> Seq<Seq<char>> {
    ss.map_values(|s: ScreeningDataV| shown(s.showtime, "%Y-%m-%d"@))
}

pub open spec fn has_english_subs(ss: Seq<ScreeningDataV>) -> bool {
    exists|i: int| 0 <= i < ss.len() && ss[i].is_english_subs
}

/// The movie is in English or is shown with English subtitles somewhere.
pub open spec fn is_english_of(m: MovieDataV) -> bool {
    m.original_language == Some("en"@) || has_english_subs(m.screenings)
}

pub open spec fn bool_text(b: bool) -> Seq<char> {
    if b {
        "true"@
    } else {
        "false"@
    }
}

/// The lowercased text searched by the page's filter: title and crew.
pub open spec fn search_text_of(m: MovieDataV) -> Seq<char> {
    lowercase(display_title_of(m) + " "@ + or_empty(m.director) + " "@ + or_empty(m.writer) + " "@
        + or_empty(m.cinematographer))
}

pub open spec fn initial_of(d: Seq<char>) -> Seq<char> {
    if d.len() > 0 {
        seq![d[0]]
    } else {
        "?"@
    }
}

/// The poster, or a placeholder for sneak previews, festivals and others.
pub open spec fn poster_of(m: MovieDataV) -> Seq<char> {
    match m.poster_url {
        Some(u) => POSTER_IMG_0@ + html_escaped(u) + POSTER_IMG_1@ + html_escaped(display_title_of(m))
            + POSTER_IMG_2@,
        None => {
            let tl = lowercase(m.title);
            if contains(tl, "sneak"@) || tl == "classic sneak"@ {
                POSTER_SNEAK@
            } else if contains(tl, "festival"@) || contains(tl, "filmfest"@) {
                POSTER_FESTIVAL@
            } else {
                POSTER_INITIAL_0@ + html_escaped(initial_of(display_title_of(m))) + POSTER_INITIAL_1@
            }
        },
    }
}

pub open spec fn year_text(m: MovieDataV) -> Seq<char> {
    match m.year {
        Some(y) => " ("@ + decimal(y as int) + ")"@,
        None => Seq::empty(),
    }
}

pub open spec fn tmdb_link_of(m: MovieDataV) -> Seq<char> {
    match m.tmdb_url {
        Some(u) => TMDB_LINK_0@ + html_escaped(u) + TMDB_LINK_1@,
        None => Seq::empty(),
    }
}

pub open spec fn card_data_of(m: MovieDataV) -> Seq<char> {
    CARD_OPEN_0@ + decimal(m.id as int) + CARD_OPEN_1@ + decimal(m.id as int) + CARD_OPEN_2@
        + html_escaped(join(distinct(screening_keys(m.screenings)), ","@)) + CARD_OPEN_3@ + bool_text(
        is_english_of(m),
    ) + CARD_OPEN_4@ + html_escaped(search_text_of(m)) + CARD_OPEN_5@ + join(
        distinct(screening_days(m.screenings)),
        ","@,
    ) + CARD_OPEN_6@
}

/// The card's opening: data attributes, poster and title line.
pub open spec fn card_open_of(m: MovieDataV) -> Seq<char> {
    card_data_of(m) + poster_of(m) + CARD_OPEN_7@ + html_escaped(display_title_of(m)) + year_text(m)
        + tmdb_link_of(m) + CARD_OPEN_10@
}

fn screening_lists(m: &MovieData) -> (r: (Vec<Vec<char>>, Vec<Vec<char>>, bool))
    ensures
        r.0@.map_values(|v: Vec<char>| v@) == distinct(screening_keys(m@.screenings)),
        r.1@.map_values(|v: Vec<char>| v@) == distinct(screening_days(m@.screenings)),
        r.2 == has_english_subs(m@.screenings),
{
    let ghost ss = m@.screenings;
    let mut names: Vec<Vec<char>> = Vec::new();
    let mut days: Vec<Vec<char>> = Vec::new();
    let mut english = false;
    let mut i: usize = 0;
    assert(names@.map_values(|v: Vec<char>| v@) =~= distinct(screening_keys(ss.take(0))));
    assert(days@.map_values(|v: Vec<char>| v@) =~= distinct(screening_days(ss.take(0))));
    while i < m.screenings.len()
        invariant
            i <= m.screenings.len(),
            ss == m@.screenings,
            names@.map_values(|v: Vec<char>| v@) == distinct(screening_keys(ss.take(i as int))),
            days@.map_values(|v: Vec<char>| v@) == distinct(screening_days(ss.take(i as int))),
            english == (exists|j: int| 0 <= j < i && ss[j].is_english_subs),
        decreases m.screenings.len() - i,
    {
        let s = &m.screenings[i];
        assert(ss[i as int] == s@);
        assert(screening_keys(ss.take(i + 1)) =~= screening_keys(ss.take(i as int)).push(s@.normalized_theater_name));
        assert(screening_days(ss.take(i + 1)) =~= screening_days(ss.take(i as int)).push(shown(s.showtime, "%Y-%m-%d"@)));
        let n = chars_of(s.normalized_theater_name.as_str());
        add_distinct(&mut names, n, Ghost(screening_keys(ss.take(i as int))));
        let mut d: Vec<char> = Vec::new();
        put_time(&mut d, s.showtime, "%Y-%m-%d");
        assert(d@ =~= shown(s.showtime, "%Y-%m-%d"@));
        add_distinct(&mut days, d, Ghost(screening_days(ss.take(i as int))));
        if s.is_english_subs {
            english = true;
        }
        i = i + 1;
    }
    assert(ss.take(m.screenings.len() as int) =~= ss);
    (names, days, english)
}

fn opt_chars(o: &Option<String>) -> (r: Vec<char>)
    ensures
        r@ == or_empty(opt_view(*o)),
{
    match o {
        Some(s) => chars_of(s.as_str()),
        None => Vec::new(),
    }
}

fn push_card_data(out: &mut Vec<char>, m: &MovieData)
    ensures
        final(out)@ == old(out)@ + card_data_of(m@),
{
    let (names, days, english_subs) = screening_lists(m);
    let is_english = match &m.original_language {
        Some(l) => chars_eq_str(&chars_of(l.as_str()), "en"),
        None => false,
    } || english_subs;
    let mut search: Vec<char> = display_title(m);
    lit(&mut search, " ");
    let d = opt_chars(&m.director);
    push_chars(&mut search, &d);
    lit(&mut search, " ");
    let w = opt_chars(&m.writer);
    push_chars(&mut search, &w);
    lit(&mut search, " ");
    let c = opt_chars(&m.cinematographer);
    push_chars(&mut search, &c);
    let search_lower = lowercase_chars(&search);
    assert(search@ =~= display_title_of(m@) + " "@ + or_empty(m@.director) + " "@ + or_empty(m@.writer) + " "@ + or_empty(m@.cinematographer));
    let mut names_joined: Vec<char> = Vec::new();
    push_joined(&mut names_joined, &names, ",");
    let ghost o0 = out@;
    lit(out, CARD_OPEN_0);
    push_decimal(out, m.id);
    lit(out, CARD_OPEN_1);
    push_decimal(out, m.id);
    lit(out, CARD_OPEN_2);
    put_esc_chars(out, &names_joined);
    lit(out, CARD_OPEN_3);
    if is_english {
        lit(out, "true");
    } else {
        lit(out, "false");
    }
    lit(out, CARD_OPEN_4);
    put_esc_chars(out, &search_lower);
    lit(out, CARD_OPEN_5);
    push_joined(out, &days, ",");
    lit(out, CARD_OPEN_6);
    assert(out@ =~= o0 + card_data_of(m@));
}

fn push_poster(out: &mut Vec<char>, m: &MovieData)
    ensures
        final(out)@ == old(out)@ + poster_of(m@),
{
    let ghost o0 = out@;
    match &m.poster_url {
        Some(u) => {
            lit(out, POSTER_IMG_0);
            put_esc(out, u.as_str());
            lit(out, POSTER_IMG_1);
            let t = display_title(m);
            put_esc_chars(out, &t);
            lit(out, POSTER_IMG_2);
        },
        None => {
            let tl = lowercase_chars(&chars_of(m.title.as_str()));
            if contains_str(&tl, "sneak") || chars_eq_str(&tl, "classic sneak") {
                lit(out, POSTER_SNEAK);
            } else if contains_str(&tl, "festival") || contains_str(&tl, "filmfest") {
                lit(out, POSTER_FESTIVAL);
            } else {
                let t = display_title(m);
                let mut initial: Vec<char> = Vec::new();
                if t.len() > 0 {
                    initial.push(t[0]);
                    assert(initial@ =~= seq![t@[0]]);
                } else {
                    lit(&mut initial, "?");
                }
                lit(out, POSTER_INITIAL_0);
                put_esc_chars(out, &initial);
                lit(out, POSTER_INITIAL_1);
            }
        },
    }
    assert(out@ =~= o0 + poster_of(m@));
}

fn push_card_open(out: &mut Vec<char>, m: &MovieData)
    ensures
        final(out)@ == old(out)@ + card_open_of(m@),
{
    let ghost o0 = out@;
    push_card_data(out, m);
    push_poster(out, m);
    lit(out, CARD_OPEN_7);
    let t = display_title(m);
    put_esc_chars(out, &t);
    let ghost o1 = out@;
    match m.year {
        Some(y) => {
            lit(out, " (");
            push_decimal(out, y as i64);
            lit(out, ")");
        },
        None => {},
    }
    assert(out@ =~= o1 + year_text(m@));
    let ghost o2 = out@;
    match &m.tmdb_url {
        Some(u) => {
            lit(out, TMDB_LINK_0);
            put_esc(out, u.as_str());
            lit(out, TMDB_LINK_1);
        },
        None => {},
    }
    assert(out@ =~= o2 + tmdb_link_of(m@));
    lit(out, CARD_OPEN_10);
    assert(out@ =~= o0 + card_open_of(m@));
}


// ---------------------------------------------------------------------
// Card details
// ---------------------------------------------------------------------

/// The original title, when it differs from the title shown.
pub open spec fn original_part(m: MovieDataV) -> Seq<char> {
    match m.original_title {
        Some(o) => if o != display_title_of(m) {
            ORIGINAL_TITLE_0@ + html_escaped(o) + ORIGINAL_TITLE_1@
        } else {
            Seq::empty()
        },
        None => Seq::empty(),
    }
}

/// The German title, when it differs from the title shown and the original title.
pub open spec fn german_part(m: MovieDataV) -> Seq<char> {
    match m.german_title {
        Some(g) => if g != display_title_of(m) && m.original_title != Some(g) {
            GERMAN_TITLE_0@ + html_escaped(g) + GERMAN_TITLE_1@
        } else {
            Seq::empty()
        },
        None => Seq::empty(),
    }
}

/// Original language (by name) and production countries.
pub open spec fn language_part(m: MovieDataV) -> Seq<char> {
    if m.original_language is Some || m.production_countries is Some {
        LANG_OPEN@ + (match m.original_language {
            Some(l) => LANG_NAME_0@ + html_escaped(language_name(l)) + LANG_NAME_1@,
            None => Seq::empty(),
        }) + (match m.production_countries {
            Some(c) => (if m.original_language is Some {
                LANG_SEPARATOR@
            } else {
                Seq::empty()
            }) + LANG_COUNTRIES_0@ + html_escaped(c) + LANG_COUNTRIES_1@,
            None => Seq::empty(),
        }) + "</p>\n"@
    } else {
        Seq::empty()
    }
}

pub open spec fn runtime_text(m: MovieDataV) -> Seq<char> {
    match m.runtime_minutes {
        Some(r) => decimal(r as int) + " min"@,
        None => Seq::empty(),
    }
}

/// Genres and runtime.
pub open spec fn meta_part(m: MovieDataV) -> Seq<char> {
    if runtime_text(m).len() > 0 || m.genres is Some {
        META_OPEN@ + (match m.genres {
            Some(g) => META_GENRES_0@ + html_escaped(g) + META_GENRES_1@,
            None => Seq::empty(),
        }) + (if runtime_text(m).len() > 0 {
            META_RUNTIME_0@ + html_escaped(runtime_text(m)) + META_RUNTIME_1@
        } else {
            Seq::empty()
        }) + "</p>\n"@
    } else {
        Seq::empty()
    }
}

/// A crew member's name, linked to their TMDB page when the id is known.
pub open spec fn person_of(name: Seq<char>, id: Option<i32>) -> Seq<char> {
    match id {
        Some(i) => PERSON_LINK_0@ + decimal(i as int) + PERSON_LINK_1@ + html_escaped(name)
            + PERSON_LINK_2@,
        None => html_escaped(name),
    }
}

/// Director, writer and cinematographer.
pub open spec fn crew_part(m: MovieDataV) -> Seq<char> {
    if m.director is Some || m.writer is Some || m.cinematographer is Some {
        CREW_OPEN@ + (match m.director {
            Some(d) => CREW_DIRECTOR_0@ + person_of(d, m.director_id) + CREW_DIRECTOR_1@,
            None => Seq::empty(),
        }) + (match m.writer {
            Some(w) => CREW_WRITER_0@ + person_of(w, m.writer_id) + CREW_WRITER_1@,
            None => Seq::empty(),
        }) + (match m.cinematographer {
            Some(c) => CREW_CINEMATOGRAPHY_0@ + person_of(c, m.cinematographer_id)
                + CREW_CINEMATOGRAPHY_1@,
            None => Seq::empty(),
        }) + "</dl>\n"@
    } else {
        Seq::empty()
    }
}

/// The overview, cut after 200 characters with an ellipsis.
pub open spec fn overview_part(m: MovieDataV) -> Seq<char> {
    match m.overview {
        Some(o) => if o.len() > 0 {
            OVERVIEW_0@ + html_escaped(
                if o.len() > 200 {
                    o.take(200) + "..."@
                } else {
                    o
                },
            ) + OVERVIEW_1@
        } else {
            Seq::empty()
        },
        None => Seq::empty(),
    }
}

fn push_titles(out: &mut Vec<char>, m: &MovieData)
    ensures
        final(out)@ == old(out)@ + original_part(m@) + german_part(m@),
{
    let ghost o0 = out@;
    let t = display_title(m);
    match &m.original_title {
        Some(o) => {
            let ov = chars_of(o.as_str());
            if !chars_eq(&ov, &t) {
                lit(out, ORIGINAL_TITLE_0);
                put_esc(out, o.as_str());
                lit(out, ORIGINAL_TITLE_1);
            }
        },
        None => {},
    }
    assert(out@ =~= o0 + original_part(m@));
    let ghost o1 = out@;
    match &m.german_title {
        Some(g) => {
            let gv = chars_of(g.as_str());
            let same_as_original = match &m.original_title {
                Some(o) => chars_eq(&chars_of(o.as_str()), &gv),
                None => false,
            };
            if !chars_eq(&gv, &t) && !same_as_original {
                lit(out, GERMAN_TITLE_0);
                put_esc(out, g.as_str());
                lit(out, GERMAN_TITLE_1);
            }
        },
        None => {},
    }
    assert(out@ =~= o1 + german_part(m@));
}

fn push_language(out: &mut Vec<char>, m: &MovieData)
    ensures
        final(out)@ == old(out)@ + language_part(m@),
{
    if m.original_language.is_some() || m.production_countries.is_some() {
        let ghost o0 = out@;
        lit(out, LANG_OPEN);
        let ghost o1 = out@;
        match &m.original_language {
            Some(l) => {
                lit(out, LANG_NAME_0);
                let name = language_name_exec(l.as_str());
                put_esc_chars(out, &name);
                lit(out, LANG_NAME_1);
            },
            None => {},
        }
        let ghost o2 = out@;
        match &m.production_countries {
            Some(c) => {
                if m.original_language.is_some() {
                    lit(out, LANG_SEPARATOR);
                }
                lit(out, LANG_COUNTRIES_0);
                put_esc(out, c.as_str());
                lit(out, LANG_COUNTRIES_1);
            },
            None => {},
        }
        let ghost o3 = out@;
        lit(out, "</p>\n");
        assert(out@ =~= o0 + language_part(m@));
    } else {
        assert(out@ =~= old(out)@ + language_part(m@));
    }
}

fn push_meta(out: &mut Vec<char>, m: &MovieData)
    ensures
        final(out)@ == old(out)@ + meta_part(m@),
{
    let mut runtime: Vec<char> = Vec::new();
    match m.runtime_minutes {
        Some(r) => {
            push_decimal(&mut runtime, r as i64);
            lit(&mut runtime, " min");
        },
        None => {},
    }
    assert(runtime@ =~= runtime_text(m@));
    if runtime.len() > 0 || m.genres.is_some() {
        let ghost o0 = out@;
        lit(out, META_OPEN);
        match &m.genres {
            Some(g) => {
                lit(out, META_GENRES_0);
                put_esc(out, g.as_str());
                lit(out, META_GENRES_1);
            },
            None => {},
        }
        let ghost o1 = out@;
        if runtime.len() > 0 {
            lit(out, META_RUNTIME_0);
            put_esc_chars(out, &runtime);
            lit(out, META_RUNTIME_1);
        }
        let ghost o2 = out@;
        lit(out, "</p>\n");
        assert(out@ =~= o0 + meta_part(m@));
    } else {
        assert(out@ =~= old(out)@ + meta_part(m@));
    }
}

fn push_person(out: &mut Vec<char>, name: &str, id: Option<i32>)
    ensures
        final(out)@ == old(out)@ + person_of(name@, id),
{
    match id {
        Some(i) => {
            lit(out, PERSON_LINK_0);
            push_decimal(out, i as i64);
            lit(out, PERSON_LINK_1);
            put_esc(out, name);
            lit(out, PERSON_LINK_2);
        },
        None => {
            put_esc(out, name);
        },
    }
    assert(out@ =~= old(out)@ + person_of(name@, id));
}

#[verifier::rlimit(40)]
fn push_crew(out: &mut Vec<char>, m: &MovieData)
    ensures
        final(out)@ == old(out)@ + crew_part(m@),
{
    if m.director.is_some() || m.writer.is_some() || m.cinematographer.is_some() {
        let ghost o0 = out@;
        lit(out, CREW_OPEN);
        match &m.director {
            Some(d) => {
                lit(out, CREW_DIRECTOR_0);
                push_person(out, d.as_str(), m.director_id);
                lit(out, CREW_DIRECTOR_1);
            },
            None => {},
        }
        let ghost o1 = out@;
        match &m.writer {
            Some(w) => {
                lit(out, CREW_WRITER_0);
                push_person(out, w.as_str(), m.writer_id);
                lit(out, CREW_WRITER_1);
            },
            None => {},
        }
        let ghost o2 = out@;
        match &m.cinematographer {
            Some(c) => {
                lit(out, CREW_CINEMATOGRAPHY_0);
                push_person(out, c.as_str(), m.cinematographer_id);
                lit(out, CREW_CINEMATOGRAPHY_1);
            },
            None => {},
        }
        let ghost o3 = out@;
        lit(out, "</dl>\n");
        assert(out@ =~= o0 + crew_part(m@));
    } else {
        assert(out@ =~= old(out)@ + crew_part(m@));
    }
}

fn push_overview(out: &mut Vec<char>, m: &MovieData)
    ensures
        final(out)@ == old(out)@ + overview_part(m@),
{
    match &m.overview {
        Some(o) => {
            let ov = chars_of(o.as_str());
            if ov.len() > 0 {
                let mut t = take_chars(&ov, 200);
                if ov.len() > 200 {
                    lit(&mut t, "...");
                }
                lit(out, OVERVIEW_0);
                put_esc_chars(out, &t);
                lit(out, OVERVIEW_1);
            }
        },
        None => {},
    }
    assert(out@ =~= old(out)@ + overview_part(m@));
}

// ---------------------------------------------------------------------
// Whole cards and the page
// ---------------------------------------------------------------------

/// A movie card: header, details, crew, overview and showtimes.
pub open spec fn card_of(m: MovieDataV) -> Seq<char> {
    card_open_of(m) + original_part(m) + german_part(m) + language_part(m) + meta_part(m)
        + "            </header>\n"@ + crew_part(m) + overview_part(m) + screenings_part(m.screenings)
}

proof fn lemma_english_attr_text(b: bool)
    ensures
        contains(CARD_OPEN_3@ + bool_text(b) + CARD_OPEN_4@, "data-english=\""@ + bool_text(b) + "\""@),
{
    reveal_strlit("\" data-english=\"");
    reveal_strlit("\" data-search=\"");
    reveal_strlit("data-english=\"");
    reveal_strlit("\"");
    reveal_strlit("true");
    reveal_strlit("false");
    let s = CARD_OPEN_3@ + bool_text(b) + CARD_OPEN_4@;
    let x = "data-english=\""@ + bool_text(b) + "\""@;
    assert(s.subrange(2, 2 + x.len() as int) =~= x);
    assert(occurs_at(s, x, 2));
}

/// The text that marks a card English or not.
pub open spec fn english_mark(b: bool) -> Seq<char> {
    "data-english=\""@ + bool_text(b) + "\""@
}

proof fn lemma_card_data_mark(m: MovieDataV)
    ensures
        contains(card_data_of(m), english_mark(is_english_of(m))),
{
    let b = is_english_of(m);
    let mid = CARD_OPEN_3@ + bool_text(b) + CARD_OPEN_4@;
    lemma_english_attr_text(b);
    let a = CARD_OPEN_0@ + decimal(m.id as int) + CARD_OPEN_1@ + decimal(m.id as int) + CARD_OPEN_2@
        + html_escaped(join(distinct(screening_keys(m.screenings)), ","@));
    let z = html_escaped(search_text_of(m)) + CARD_OPEN_5@ + join(distinct(screening_days(m.screenings)), ","@) + CARD_OPEN_6@;
    assert(card_data_of(m) =~= a + mid + z);
    lemma_contains_within(a, mid, z, english_mark(b));
}

proof fn lemma_card_mark(m: MovieDataV)
    ensures
        contains(card_of(m), english_mark(is_english_of(m))),
{
    let x = english_mark(is_english_of(m));
    let e = Seq::<char>::empty();
    lemma_card_data_mark(m);
    let r1 = poster_of(m) + CARD_OPEN_7@ + html_escaped(display_title_of(m)) + year_text(m) + tmdb_link_of(m) + CARD_OPEN_10@;
    assert(card_open_of(m) =~= e + card_data_of(m) + r1);
    lemma_contains_within(e, card_data_of(m), r1, x);
    let r2 = original_part(m) + german_part(m) + language_part(m) + meta_part(m) + "            </header>\n"@ + crew_part(m)
        + overview_part(m) + screenings_part(m.screenings);
    assert(card_of(m) =~= e + card_open_of(m) + r2);
    lemma_contains_within(e, card_open_of(m), r2, x);
}

proof fn lemma_english_mark_text()
    ensures
        english_mark(true) == "data-english=\"true\""@,
        english_mark(false) == "data-english=\"false\""@,
{
    reveal_strlit("data-english=\"");
    reveal_strlit("\"");
    reveal_strlit("true");
    reveal_strlit("false");
    reveal_strlit("data-english=\"true\"");
    reveal_strlit("data-english=\"false\"");
    assert("data-english=\""@ + "true"@ + "\""@ =~= "data-english=\"true\""@);
    assert("data-english=\""@ + "false"@ + "\""@ =~= "data-english=\"false\""@);
}

/// A movie card is marked English (`data-english="true"`) when the movie's
/// original language is English or any of its screenings has English
/// subtitles, and marked not English (`data-english="false"`) otherwise.
pub proof fn lemma_card_english_mark(m: MovieDataV)
    ensures
        (m.original_language == Some("en"@) || exists|i: int| 0 <= i < m.screenings.len() && #[trigger] m.screenings[i].is_english_subs)
            ==> contains(card_of(m), "data-english=\"true\""@),
        !(m.original_language == Some("en"@) || exists|i: int| 0 <= i < m.screenings.len() && #[trigger] m.screenings[i].is_english_subs)
            ==> contains(card_of(m), "data-english=\"false\""@),
{
    lemma_card_mark(m);
    lemma_english_mark_text();
}

/// The cards of the movies, in the order given.
pub open spec fn cards_of(ms: Seq<MovieDataV>) -> Seq<char>
    decreases ms.len(),
{
    if ms.len() == 0 {
        Seq::empty()
    } else {
        cards_of(ms.drop_last()) + card_of(ms.last())
    }
}

/// The page footer: when it was made, and the script with its cache version.
pub open spec fn footer_of(cache_version: i64, now: i64) -> Seq<char> {
    FOOTER_0@ + shown(now, "%B %d, %Y at %H:%M"@) + FOOTER_1@ + decimal(cache_version as int)
        + FOOTER_2@
}

/// The whole index page.
pub open spec fn page_of(ms: Seq<MovieDataV>, ts: Seq<TheaterInfoV>, cache_version: i64, now: i64) -> Seq<char> {
    head_of(meta_description_of(ms.len() as int, ts.len() as int), cache_version, json_ld_of(ms))
        + theater_filter_of(ts) + cards_of(ms) + footer_of(cache_version, now)
}

#[verifier::rlimit(50)]
fn push_card(out: &mut Vec<char>, m: &MovieData)
    ensures
        final(out)@ == old(out)@ + card_of(m@),
{
    let ghost o0 = out@;
    push_card_open(out, m);
    push_titles(out, m);
    push_language(out, m);
    push_meta(out, m);
    lit(out, "            </header>\n");
    push_crew(out, m);
    push_overview(out, m);
    let (_names, days, _english) = screening_lists(m);
    push_screenings(out, &m.screenings, &days);
    assert(out@ =~= o0 + card_of(m@));
}

/// Writes the index page of the site for the movies and theaters given;
/// `cache_version` busts caches of the style and script, `now` (Unix
/// seconds) is shown as the time of the last update.
#[verifier::rlimit(50)]
pub fn generate_html(movies: &Vec<MovieData>, theaters: &Vec<TheaterInfo>, cache_version: i64, now: i64) -> (r: String)
    ensures
        r@ == page_of(movie_views(movies@), theaters@.map_values(|t: TheaterInfo| t@), cache_version, now),
{
    let ghost mv = movie_views(movies@);
    let mut out: Vec<char> = Vec::new();
    push_head(&mut out, movies, theaters.len(), cache_version);
    push_theater_filter(&mut out, theaters);
    let ghost base = out@;
    let mut i: usize = 0;
    while i < movies.len()
        invariant
            i <= movies.len(),
            mv == movie_views(movies@),
            out@ == base + cards_of(mv.take(i as int)),
        decreases movies.len() - i,
    {
        assert(mv.take(i + 1).drop_last() =~= mv.take(i as int));
        assert(mv.take(i + 1).last() == movies@[i as int]@);
        push_card(&mut out, &movies[i]);
        i = i + 1;
    }
    assert(mv.take(movies.len() as int) =~= mv);
    let ghost o1 = out@;
    lit(&mut out, FOOTER_0);
    put_time(&mut out, now, "%B %d, %Y at %H:%M");
    lit(&mut out, FOOTER_1);
    push_decimal(&mut out, cache_version);
    lit(&mut out, FOOTER_2);
    assert(out@ =~= o1 + footer_of(cache_version, now));
    assert(out@ =~= page_of(mv, theaters@.map_values(|t: TheaterInfo| t@), cache_version, now));
    string_of(&out)
}

/// `x` occurs in any text that holds a text in which it occurs.
proof fn lemma_contains_within(p: Seq<char>, s: Seq<char>, q: Seq<char>, x: Seq<char>)
    requires
        contains(s, x),
    ensures
        contains(p + s + q, x),
{
    let i = choose|i: int| occurs_at(s, x, i);
    assert((p + s + q).subrange(p.len() + i, p.len() + i + x.len()) =~= s.subrange(i, i + x.len()));
    assert(occurs_at(p + s + q, x, p.len() + i));
}

proof fn lemma_contains_itself(x: Seq<char>)
    ensures
        contains(x, x),
{
    assert(x.subrange(0, x.len() as int) =~= x);
    assert(occurs_at(x, x, 0));
}

proof fn lemma_nav_open_ids()
    ensures
        contains(nav_open(), ID_SELECT_ALL@),
        contains(nav_open(), ID_SELECT_NONE@),
{
    lemma_contains_itself(ID_SELECT_ALL@);
    lemma_contains_itself(ID_SELECT_NONE@);
    lemma_contains_within(NAV_OPEN_0@, ID_SELECT_ALL@, NAV_OPEN_1@ + ID_SELECT_NONE@ + NAV_OPEN_2@, ID_SELECT_ALL@);
    assert(nav_open() =~= NAV_OPEN_0@ + ID_SELECT_ALL@ + (NAV_OPEN_1@ + ID_SELECT_NONE@ + NAV_OPEN_2@));
    lemma_contains_within(NAV_OPEN_0@ + ID_SELECT_ALL@ + NAV_OPEN_1@, ID_SELECT_NONE@, NAV_OPEN_2@, ID_SELECT_NONE@);
}

proof fn lemma_nav_close_ids()
    ensures
        contains(nav_close(), ID_SEARCH@),
        contains(nav_close(), ID_FILTER_TODAY@),
        contains(nav_close(), ID_FILTER_TOMORROW@),
        contains(nav_close(), ID_SHOW_ALL_OV@),
{
    let a0 = NAV_CLOSE_0@;
    let a1 = a0 + ID_SEARCH@ + NAV_CLOSE_1@;
    let a2 = a1 + ID_FILTER_TODAY@ + NAV_CLOSE_2@;
    let a3 = a2 + ID_FILTER_TOMORROW@ + NAV_CLOSE_3@;
    let b0 = NAV_CLOSE_1@ + ID_FILTER_TODAY@ + NAV_CLOSE_2@ + ID_FILTER_TOMORROW@ + NAV_CLOSE_3@ + ID_SHOW_ALL_OV@ + NAV_CLOSE_4@;
    let b1 = NAV_CLOSE_2@ + ID_FILTER_TOMORROW@ + NAV_CLOSE_3@ + ID_SHOW_ALL_OV@ + NAV_CLOSE_4@;
    let b2 = NAV_CLOSE_3@ + ID_SHOW_ALL_OV@ + NAV_CLOSE_4@;
    let b3 = NAV_CLOSE_4@;
    lemma_contains_itself(ID_SEARCH@);
    lemma_contains_itself(ID_FILTER_TODAY@);
    lemma_contains_itself(ID_FILTER_TOMORROW@);
    lemma_contains_itself(ID_SHOW_ALL_OV@);
    assert(nav_close() =~= a0 + ID_SEARCH@ + b0);
    lemma_contains_within(a0, ID_SEARCH@, b0, ID_SEARCH@);
    assert(nav_close() =~= a1 + ID_FILTER_TODAY@ + b1);
    lemma_contains_within(a1, ID_FILTER_TODAY@, b1, ID_FILTER_TODAY@);
    assert(nav_close() =~= a2 + ID_FILTER_TOMORROW@ + b2);
    lemma_contains_within(a2, ID_FILTER_TOMORROW@, b2, ID_FILTER_TOMORROW@);
    assert(nav_close() =~= a3 + ID_SHOW_ALL_OV@ + b3);
    lemma_contains_within(a3, ID_SHOW_ALL_OV@, b3, ID_SHOW_ALL_OV@);
}

proof fn lemma_filter_ids(ts: Seq<TheaterInfoV>, x: Seq<char>)
    requires
        contains(nav_open(), x) || contains(nav_close(), x),
    ensures
        contains(theater_filter_of(ts), x),
{
    let e = Seq::<char>::empty();
    let secs = chain_sections(ts, 7);
    if contains(nav_open(), x) {
        assert(theater_filter_of(ts) =~= e + nav_open() + (secs + nav_close()));
        lemma_contains_within(e, nav_open(), secs + nav_close(), x);
    } else {
        assert(theater_filter_of(ts) =~= (nav_open() + secs) + nav_close() + e);
        lemma_contains_within(nav_open() + secs, nav_close(), e, x);
    }
}

proof fn lemma_page_has(ms: Seq<MovieDataV>, ts: Seq<TheaterInfoV>, cache_version: i64, now: i64, x: Seq<char>)
    requires
        contains(nav_open(), x) || contains(nav_close(), x),
    ensures
        contains(page_of(ms, ts, cache_version, now), x),
{
    let head = head_of(meta_description_of(ms.len() as int, ts.len() as int), cache_version, json_ld_of(ms));
    let rest = cards_of(ms) + footer_of(cache_version, now);
    lemma_filter_ids(ts, x);
    assert(page_of(ms, ts, cache_version, now) =~= head + theater_filter_of(ts) + rest);
    lemma_contains_within(head, theater_filter_of(ts), rest, x);
}

/// Every element that the page script looks up by id (the select-all and
/// clear buttons of the theater filter, the search box, the today and
/// tomorrow filters and the show-all toggle) is on every generated page.
pub proof fn lemma_page_has_script_ids(ms: Seq<MovieDataV>, ts: Seq<TheaterInfoV>, cache_version: i64, now: i64)
    ensures
        contains(page_of(ms, ts, cache_version, now), "id=\"select-all\""@),
        contains(page_of(ms, ts, cache_version, now), "id=\"select-none\""@),
        contains(page_of(ms, ts, cache_version, now), "id=\"search\""@),
        contains(page_of(ms, ts, cache_version, now), "id=\"filter-today\""@),
        contains(page_of(ms, ts, cache_version, now), "id=\"filter-tomorrow\""@),
        contains(page_of(ms, ts, cache_version, now), "id=\"show-all-ov\""@),
{
    lemma_nav_open_ids();
    lemma_nav_close_ids();
    lemma_page_has(ms, ts, cache_version, now, ID_SELECT_ALL@);
    lemma_page_has(ms, ts, cache_version, now, ID_SELECT_NONE@);
    lemma_page_has(ms, ts, cache_version, now, ID_SEARCH@);
    lemma_page_has(ms, ts, cache_version, now, ID_FILTER_TODAY@);
    lemma_page_has(ms, ts, cache_version, now, ID_FILTER_TOMORROW@);
    lemma_page_has(ms, ts, cache_version, now, ID_SHOW_ALL_OV@);
}

// ---------------------------------------------------------------------
// Sitemap
// ---------------------------------------------------------------------

/// The sitemap entries of the movies' anchors.
pub open spec fn sitemap_entries(ms: Seq<MovieDataV>, date: Seq<char>) -> Seq<char>
    decreases ms.len(),
{
    if ms.len() == 0 {
        Seq::empty()
    } else {
        sitemap_entries(ms.drop_last(), date) + SITEMAP_MOVIE_0@ + decimal(ms.last().id as int)
            + SITEMAP_MOVIE_1@ + date + SITEMAP_MOVIE_2@
    }
}

/// The sitemap: the home page, then one anchor per movie, all dated `date`.
pub open spec fn sitemap_of(ms: Seq<MovieDataV>, date: Seq<char>) -> Seq<char> {
    SITEMAP_HOME_0@ + date + SITEMAP_HOME_1@ + sitemap_entries(ms, date) + SITEMAP_CLOSE@
}

/// Writes `sitemap.xml`, dated with the UTC day of `now` (Unix seconds).
pub fn generate_sitemap(movies: &Vec<MovieData>, now: i64) -> (r: String)
    ensures
        r@ == sitemap_of(movie_views(movies@), or_empty(utc_date_text(now))),
{
    let ghost mv = movie_views(movies@);
    let mut date: Vec<char> = Vec::new();
    match utc_date(now) {
        Some(d) => lit(&mut date, d.as_str()),
        None => {},
    }
    assert(date@ =~= or_empty(utc_date_text(now)));
    let mut out: Vec<char> = Vec::new();
    lit(&mut out, SITEMAP_HOME_0);
    push_chars(&mut out, &date);
    lit(&mut out, SITEMAP_HOME_1);
    let ghost base = out@;
    let mut i: usize = 0;
    while i < movies.len()
        invariant
            i <= movies.len(),
            mv == movie_views(movies@),
            out@ == base + sitemap_entries(mv.take(i as int), date@),
        decreases movies.len() - i,
    {
        assert(mv.take(i + 1).drop_last() =~= mv.take(i as int));
        assert(mv.take(i + 1).last() == movies@[i as int]@);
        let ghost o = out@;
        lit(&mut out, SITEMAP_MOVIE_0);
        push_decimal(&mut out, movies[i].id);
        lit(&mut out, SITEMAP_MOVIE_1);
        push_chars(&mut out, &date);
        lit(&mut out, SITEMAP_MOVIE_2);
        assert(out@ =~= base + sitemap_entries(mv.take(i + 1), date@));
        i = i + 1;
    }
    assert(mv.take(movies.len() as int) =~= mv);
    lit(&mut out, SITEMAP_CLOSE);
    assert(out@ =~= sitemap_of(mv, date@));
    string_of(&out)
}

} // verus!
