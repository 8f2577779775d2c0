//! CineStar: showtimes from the JSON API, turned into screenings.
use crate::clock::{berlin_instant, berlin_to_utc, parse_datetime_with, parsed_datetime};
use crate::models::{opt_view, Movie, MovieWithScreenings, MovieWithScreeningsV, MovieV, Screening, ScreeningV, Theater, TheaterData, TheaterV};
use crate::text::{chars_eq_str, chars_of, contains, contains_str, decimal, string_of};
use vstd::prelude::*;
use vstd::string::StringExecFns;

verus! {

/// Cinema details from the API.
#[derive(Debug)]
pub struct CineStarCinema {
    pub name: String,
    pub slug: Option<String>,
    pub city: String,
    pub street: String,
    pub zip: String,
    pub lat: Option<String>,
    pub lng: Option<String>,
}

/// One showtime from the API.
#[derive(Debug)]
pub struct CineStarShowtime {
    pub id: i64,
    pub datetime: String,
    pub attributes: Vec<String>,
}

pub struct CineStarShowtimeV {
    pub id: i64,
    pub datetime: Seq<char>,
    pub attributes: Seq<Seq<char>>,
}

impl View for CineStarShowtime {
    type V = CineStarShowtimeV;

    open spec fn view(&self) -> CineStarShowtimeV {
        CineStarShowtimeV {
            id: self.id,
            datetime: self.datetime@,
            attributes: self.attributes@.map_values(|a: String| a@),
        }
    }
}

/// One movie with its showtimes from the API.
#[derive(Debug)]
pub struct CineStarMovie {
    pub id: i64,
    pub title: String,
    pub showtimes: Vec<CineStarShowtime>,
}

pub struct CineStarMovieV {
    pub id: i64,
    pub title: Seq<char>,
    pub showtimes: Seq<CineStarShowtimeV>,
}

impl View for CineStarMovie {
    type V = CineStarMovieV;

    open spec fn view(&self) -> CineStarMovieV {
        CineStarMovieV {
            id: self.id,
            title: self.title@,
            showtimes: self.showtimes@.map_values(|s: CineStarShowtime| s@),
        }
    }
}

/// Position of the last space.
pub open spec fn last_space(s: Seq<char>) -> Option<int>
    decreases s.len(),
{
    if s.len() == 0 {
        None
    } else if s.last() == ' ' {
        Some(s.len() - 1)
    } else {
        last_space(s.drop_last())
    }
}

/// The instant of a CineStar datetime such as "2025-12-27 16:00 CET": the
/// text before the last space read as a Berlin wall-clock time.
pub open spec fn cinestar_instant(s: Seq<char>) -> Option<i64> {
    match last_space(s) {
        None => None,
        Some(p) => match parsed_datetime(s.take(p), "%Y-%m-%d %H:%M"@) {
            None => None,
            Some((y, mo, d, h, mi, sec)) => berlin_instant(y, mo, d, h, mi, sec),
        },
    }
}

/// Parses CineStar datetime format like "2025-12-27 16:00 CET".
pub fn parse_cinestar_datetime(s: &str) -> (r: Option<i64>)
    ensures
        r == cinestar_instant(s@),
{
    let v = chars_of(s);
    let mut i = v.len();
    assert(v@.take(i as int) =~= v@);
    while i > 0 && v[i - 1] != ' '
        invariant
            i <= v.len(),
            v@ == s@,
            last_space(v@) == last_space(v@.take(i as int)),
        decreases i,
    {
        assert(v@.take(i as int).drop_last() =~= v@.take(i - 1));
        i = i - 1;
    }
    if i == 0 {
        assert(v@.take(0) =~= Seq::<char>::empty());
        return None;
    }
    let p = i - 1;
    assert(last_space(v@.take(i as int)) == Some(p as int));
    let mut head: Vec<char> = Vec::new();
    let mut k: usize = 0;
    while k < p
        invariant
            k <= p < v.len(),
            head@ == v@.take(k as int),
        decreases p - k,
    {
        head.push(v[k]);
        assert(v@.take(k as int + 1) =~= v@.take(k as int).push(v@[k as int]));
        k = k + 1;
    }
    let hs = string_of(&head);
    match parse_datetime_with(hs.as_str(), "%Y-%m-%d %H:%M") {
        None => None,
        Some((d, t)) => berlin_to_utc(d, t),
    }
}

pub open spec fn any_equal(attrs: Seq<Seq<char>>, a: Seq<char>) -> bool {
    exists|i: int| 0 <= i < attrs.len() && attrs[i] == a
}

pub open spec fn any_contains(attrs: Seq<Seq<char>>, a: Seq<char>) -> bool {
    exists|i: int| 0 <= i < attrs.len() && contains(attrs[i], a)
}

/// An attribute naming a premium format.
pub open spec fn is_format_attribute(a: Seq<char>) -> bool {
    contains(a, "IMAX"@) || contains(a, "Dolby"@) || contains(a, "Premium"@) || contains(a, "XL"@)
        || contains(a, "HFR"@)
}

/// The first attribute naming a premium format.
pub open spec fn first_format(attrs: Seq<Seq<char>>) -> Option<Seq<char>>
    decreases attrs.len(),
{
    if attrs.len() == 0 {
        None
    } else if is_format_attribute(attrs[0]) {
        Some(attrs[0])
    } else {
        first_format(attrs.drop_first())
    }
}

/// The screening of a showtime whose datetime can be read.
pub open spec fn cinestar_screening_of(st: CineStarShowtimeV) -> Option<ScreeningV> {
    match cinestar_instant(st.datetime) {
        None => None,
        Some(t) => Some(
            ScreeningV {
                showtime: t,
                screening_type: first_format(st.attributes),
                is_ov: any_equal(st.attributes, "OV"@) || any_equal(st.attributes, "AUDIO_OV"@),
                is_omu: any_equal(st.attributes, "OmU"@),
                is_english_subs: any_equal(st.attributes, "OmeU"@) || any_equal(
                    st.attributes,
                    "OmengU"@,
                ),
                is_3d: any_contains(st.attributes, "3D"@),
                booking_url: Some("https://www.cinestar.de/tickets/"@ + decimal(st.id as int)),
            },
        ),
    }
}

/// A showtime becomes a screening exactly when its datetime reads, and its
/// language flags come from its attributes alone, each from the presence
/// of its own names whatever else is listed: OmU when some attribute is
/// "OmU", OV when some attribute is "OV" or "AUDIO_OV", English subtitles
/// when some attribute is "OmeU" or "OmengU".
pub proof fn lemma_cinestar_flags(st: CineStarShowtimeV)
    ensures
        (cinestar_screening_of(st) is Some) == (cinestar_instant(st.datetime) is Some),
        cinestar_screening_of(st) matches Some(x) ==> {
            &&& Some(x.showtime) == cinestar_instant(st.datetime)
            &&& x.is_omu == (exists|i: int| 0 <= i < st.attributes.len() && #[trigger] st.attributes[i] == "OmU"@)
            &&& x.is_ov == (exists|i: int|
                0 <= i < st.attributes.len() && (#[trigger] st.attributes[i] == "OV"@ || st.attributes[i] == "AUDIO_OV"@))
            &&& x.is_english_subs == (exists|i: int|
                0 <= i < st.attributes.len() && (#[trigger] st.attributes[i] == "OmeU"@ || st.attributes[i] == "OmengU"@))
        },
{
    if let Some(x) = cinestar_screening_of(st) {
        let a = st.attributes;
        if x.is_ov {
            let i = choose|i: int| 0 <= i < a.len() && (a[i] == "OV"@ || a[i] == "AUDIO_OV"@);
            assert(0 <= i < a.len() && (a[i] == "OV"@ || a[i] == "AUDIO_OV"@));
        }
        if x.is_english_subs {
            let i = choose|i: int| 0 <= i < a.len() && (a[i] == "OmeU"@ || a[i] == "OmengU"@);
            assert(0 <= i < a.len() && (a[i] == "OmeU"@ || a[i] == "OmengU"@));
        }
    }
}

pub(crate) fn has_attribute(attrs: &Vec<String>, a: &str) -> (b: bool)
    ensures
        b == any_equal(attrs@.map_values(|s: String| s@), a@),
{
    let ghost av = attrs@.map_values(|s: String| s@);
    let mut i: usize = 0;
    while i < attrs.len()
        invariant
            i <= attrs.len(),
            av == attrs@.map_values(|s: String| s@),
            forall|j: int| 0 <= j < i ==> av[j] != a@,
        decreases attrs.len() - i,
    {
        let v = chars_of(attrs[i].as_str());
        if chars_eq_str(&v, a) {
            assert(av[i as int] == a@);
            return true;
        }
        i = i + 1;
    }
    false
}

pub(crate) fn has_attribute_containing(attrs: &Vec<String>, a: &str) -> (b: bool)
    ensures
        b == any_contains(attrs@.map_values(|s: String| s@), a@),
{
    let ghost av = attrs@.map_values(|s: String| s@);
    let mut i: usize = 0;
    while i < attrs.len()
        invariant
            i <= attrs.len(),
            av == attrs@.map_values(|s: String| s@),
            forall|j: int| 0 <= j < i ==> !contains(av[j], a@),
        decreases attrs.len() - i,
    {
        let v = chars_of(attrs[i].as_str());
        if contains_str(&v, a) {
            assert(contains(av[i as int], a@));
            return true;
        }
        i = i + 1;
    }
    false
}

fn format_attribute(attrs: &Vec<String>) -> (r: Option<String>)
    ensures
        opt_view(r) == first_format(attrs@.map_values(|s: String| s@)),
{
    let ghost av = attrs@.map_values(|s: String| s@);
    let mut i: usize = 0;
    assert(av.skip(0) =~= av);
    while i < attrs.len()
        invariant
            i <= attrs.len(),
            av == attrs@.map_values(|s: String| s@),
            first_format(av) == first_format(av.skip(i as int)),
        decreases attrs.len() - i,
    {
        let v = chars_of(attrs[i].as_str());
        assert(av.skip(i as int)[0] == av[i as int]);
        if contains_str(&v, "IMAX") || contains_str(&v, "Dolby") || contains_str(&v, "Premium")
            || contains_str(&v, "XL") || contains_str(&v, "HFR") {
            return Some(attrs[i].clone());
        }
        assert(av.skip(i as int).drop_first() =~= av.skip(i + 1));
        i = i + 1;
    }
    assert(av.skip(i as int) =~= Seq::<Seq<char>>::empty());
    None
}

/// The screening of one showtime; `None` when its datetime cannot be read.
pub fn cinestar_screening(st: &CineStarShowtime) -> (r: Option<Screening>)
    ensures
        match r {
            Some(s) => cinestar_screening_of(st@) == Some(s@),
            None => cinestar_screening_of(st@) is None,
        },
{
    match parse_cinestar_datetime(st.datetime.as_str()) {
        None => None,
        Some(utc) => {
            let is_ov = has_attribute(&st.attributes, "OV") || has_attribute(&st.attributes, "AUDIO_OV");
            let is_omu = has_attribute(&st.attributes, "OmU");
            let is_english_subs = has_attribute(&st.attributes, "OmeU") || has_attribute(
                &st.attributes,
                "OmengU",
            );
            let is_3d = has_attribute_containing(&st.attributes, "3D");
            let screening_type = format_attribute(&st.attributes);
            let mut url = String::from_str("https://www.cinestar.de/tickets/");
            let id = crate::text::decimal_string(st.id);
            url.append(id.as_str());
            Some(
                Screening {
                    showtime: utc,
                    screening_type,
                    is_ov,
                    is_omu,
                    is_english_subs,
                    is_3d,
                    booking_url: Some(url),
                },
            )
        },
    }
}

/// The screenings of the showtimes whose datetime can be read, in order.
pub open spec fn cinestar_screenings(shows: Seq<CineStarShowtimeV>) -> Seq<ScreeningV>
    decreases shows.len(),
{
    if shows.len() == 0 {
        Seq::empty()
    } else {
        let rest = cinestar_screenings(shows.drop_last());
        match cinestar_screening_of(shows.last()) {
            Some(s) => rest.push(s),
            None => rest,
        }
    }
}

/// The movies that have at least one readable showtime, each with those
/// screenings.
pub open spec fn cinestar_movies(movies: Seq<CineStarMovieV>) -> Seq<MovieWithScreeningsV>
    decreases movies.len(),
{
    if movies.len() == 0 {
        Seq::empty()
    } else {
        let rest = cinestar_movies(movies.drop_last());
        let m = movies.last();
        let s = cinestar_screenings(m.showtimes);
        if s.len() > 0 {
            rest.push(
                MovieWithScreeningsV {
                    movie: MovieV {
                        external_id: Some(decimal(m.id as int)),
                        title: m.title,
                        runtime_minutes: None,
                        rating: None,
                    },
                    screenings: s,
                },
            )
        } else {
            rest
        }
    }
}

/// The theater as listed: name, city, "street, zip city" address,
/// cinema page, coordinates.
pub open spec fn cinestar_theater_of(theater_id: Seq<char>, info: CineStarCinema) -> TheaterV {
    TheaterV {
        external_id: theater_id,
        name: info.name@,
        city: Some(info.city@),
        address: Some(info.street@ + ", "@ + info.zip@ + " "@ + info.city@),
        url: match info.slug {
            Some(slug) => Some("https://www.cinestar.de/kino/"@ + slug@),
            None => None,
        },
        latitude: opt_view(info.lat),
        longitude: opt_view(info.lng),
    }
}

fn movie_screenings(shows: &Vec<CineStarShowtime>) -> (r: Vec<Screening>)
    ensures
        r@.map_values(|s: Screening| s@) == cinestar_screenings(shows@.map_values(|s: CineStarShowtime| s@)),
{
    let ghost sv = shows@.map_values(|s: CineStarShowtime| s@);
    let mut out: Vec<Screening> = Vec::new();
    let mut i: usize = 0;
    assert(out@.map_values(|s: Screening| s@) =~= Seq::<ScreeningV>::empty());
    while i < shows.len()
        invariant
            i <= shows.len(),
            sv == shows@.map_values(|s: CineStarShowtime| s@),
            out@.map_values(|s: Screening| s@) == cinestar_screenings(sv.take(i as int)),
        decreases shows.len() - i,
    {
        assert(sv.take(i + 1).drop_last() =~= sv.take(i as int));
        assert(sv.take(i + 1).last() == shows@[i as int]@);
        let ghost before = out@;
        match cinestar_screening(&shows[i]) {
            Some(s) => {
                out.push(s);
                assert(out@.map_values(|s: Screening| s@) =~= before.map_values(|s: Screening| s@).push(out@[out.len() - 1]@));
            },
            None => {},
        }
        i = i + 1;
    }
    assert(sv.take(shows.len() as int) =~= sv);
    out
}

/// Builds the theater's data from the cinema details and its movies.
pub fn cinestar_theater(theater_id: &str, info: CineStarCinema, movies: Vec<CineStarMovie>) -> (r: TheaterData)
    ensures
        r@.theater == cinestar_theater_of(theater_id@, info),
        r@.movies == cinestar_movies(movies@.map_values(|m: CineStarMovie| m@)),
{
    let ghost info0 = info;
    let mut address = info.street.clone();
    address.append(", ");
    address.append(info.zip.as_str());
    address.append(" ");
    address.append(info.city.as_str());
    let url = match &info.slug {
        Some(slug) => {
            let mut u = String::from_str("https://www.cinestar.de/kino/");
            u.append(slug.as_str());
            Some(u)
        },
        None => None,
    };
    let theater = Theater {
        external_id: String::from_str(theater_id),
        name: info.name,
        city: Some(info.city),
        address: Some(address),
        url,
        latitude: info.lat,
        longitude: info.lng,
    };
    let ghost mv = movies@.map_values(|m: CineStarMovie| m@);
    let mut out: Vec<MovieWithScreenings> = Vec::new();
    let mut i: usize = 0;
    assert(out@.map_values(|m: MovieWithScreenings| m@) =~= Seq::<MovieWithScreeningsV>::empty());
    while i < movies.len()
        invariant
            i <= movies.len(),
            mv == movies@.map_values(|m: CineStarMovie| m@),
            out@.map_values(|m: MovieWithScreenings| m@) == cinestar_movies(mv.take(i as int)),
        decreases movies.len() - i,
    {
        assert(mv.take(i + 1).drop_last() =~= mv.take(i as int));
        assert(mv.take(i + 1).last() == movies@[i as int]@);
        let entry = &movies[i];
        let screenings = movie_screenings(&entry.showtimes);
        if screenings.len() > 0 {
            let ghost before = out@;
            let m = MovieWithScreenings {
                movie: Movie {
                    external_id: Some(crate::text::decimal_string(entry.id)),
                    title: entry.title.clone(),
                    runtime_minutes: None,
                    rating: None,
                },
                screenings,
            };
            out.push(m);
            assert(out@.map_values(|m: MovieWithScreenings| m@) =~= before.map_values(|m: MovieWithScreenings| m@).push(out@[out.len() - 1]@));
        }
        i = i + 1;
    }
    assert(mv.take(movies.len() as int) =~= mv);
    TheaterData { theater, movies: out }
}

} // verus!
