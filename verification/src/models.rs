//! Data models shared across scrapers, each with a mathematical view.
use vstd::prelude::*;

verus! {

/// The characters of an optional string.
pub open spec fn opt_view(o: Option<String>) -> Option<Seq<char>> {
    match o {
        Some(s) => Some(s@),
        None => None,
    }
}

/// Copies an optional string.
pub fn copy_opt(o: &Option<String>) -> (r: Option<String>)
    ensures
        opt_view(r) == opt_view(*o),
{
    match o {
        Some(s) => Some(s.clone()),
        None => None,
    }
}

/// A cinema/theater location.  Coordinates are kept as the decimal text
/// they were received as.
#[derive(Debug)]
pub struct Theater {
    /// ID from the source website
    pub external_id: String,
    /// Display name
    pub name: String,
    /// City (e.g., "Berlin")
    pub city: Option<String>,
    /// Street address
    pub address: Option<String>,
    /// Theater website URL
    pub url: Option<String>,
    /// Latitude, as decimal text
    pub latitude: Option<String>,
    /// Longitude, as decimal text
    pub longitude: Option<String>,
}

pub struct TheaterV {
    pub external_id: Seq<char>,
    pub name: Seq<char>,
    pub city: Option<Seq<char>>,
    pub address: Option<Seq<char>>,
    pub url: Option<Seq<char>>,
    pub latitude: Option<Seq<char>>,
    pub longitude: Option<Seq<char>>,
}

impl View for Theater {
    type V = TheaterV;

    open spec fn view(&self) -> TheaterV {
        TheaterV {
            external_id: self.external_id@,
            name: self.name@,
            city: opt_view(self.city),
            address: opt_view(self.address),
            url: opt_view(self.url),
            latitude: opt_view(self.latitude),
            longitude: opt_view(self.longitude),
        }
    }
}

/// A movie.
#[derive(Debug)]
pub struct Movie {
    /// ID from the source website
    pub external_id: Option<String>,
    /// Movie title
    pub title: String,
    /// Runtime in minutes
    pub runtime_minutes: Option<i32>,
    /// Age rating (FSK in Germany)
    pub rating: Option<String>,
}

pub struct MovieV {
    pub external_id: Option<Seq<char>>,
    pub title: Seq<char>,
    pub runtime_minutes: Option<i32>,
    pub rating: Option<Seq<char>>,
}

impl View for Movie {
    type V = MovieV;

    open spec fn view(&self) -> MovieV {
        MovieV {
            external_id: opt_view(self.external_id),
            title: self.title@,
            runtime_minutes: self.runtime_minutes,
            rating: opt_view(self.rating),
        }
    }
}

/// A single screening of a movie.
#[derive(Debug)]
pub struct Screening {
    /// When the movie plays, in Unix seconds
    pub showtime: i64,
    /// Format info (iSense, IMAX, etc.)
    pub screening_type: Option<String>,
    /// Original Version (no dubbing)
    pub is_ov: bool,
    /// Original with German subtitles (OmU)
    pub is_omu: bool,
    /// Original with English subtitles (OmeU/OmengU)
    pub is_english_subs: bool,
    /// 3D screening
    pub is_3d: bool,
    /// Direct booking link
    pub booking_url: Option<String>,
}

pub struct ScreeningV {
    pub showtime: i64,
    pub screening_type: Option<Seq<char>>,
    pub is_ov: bool,
    pub is_omu: bool,
    pub is_english_subs: bool,
    pub is_3d: bool,
    pub booking_url: Option<Seq<char>>,
}

impl View for Screening {
    type V = ScreeningV;

    open spec fn view(&self) -> ScreeningV {
        ScreeningV {
            showtime: self.showtime,
            screening_type: opt_view(self.screening_type),
            is_ov: self.is_ov,
            is_omu: self.is_omu,
            is_english_subs: self.is_english_subs,
            is_3d: self.is_3d,
            booking_url: opt_view(self.booking_url),
        }
    }
}

/// A movie with its screenings at a specific theater.
#[derive(Debug)]
pub struct MovieWithScreenings {
    pub movie: Movie,
    pub screenings: Vec<Screening>,
}

pub struct MovieWithScreeningsV {
    pub movie: MovieV,
    pub screenings: Seq<ScreeningV>,
}

impl View for MovieWithScreenings {
    type V = MovieWithScreeningsV;

    open spec fn view(&self) -> MovieWithScreeningsV {
        MovieWithScreeningsV {
            movie: self.movie@,
            screenings: self.screenings@.map_values(|s: Screening| s@),
        }
    }
}

/// Data scraped for a single theater.
#[derive(Debug)]
pub struct TheaterData {
    pub theater: Theater,
    pub movies: Vec<MovieWithScreenings>,
}

pub struct TheaterDataV {
    pub theater: TheaterV,
    pub movies: Seq<MovieWithScreeningsV>,
}

impl View for TheaterData {
    type V = TheaterDataV;

    open spec fn view(&self) -> TheaterDataV {
        TheaterDataV {
            theater: self.theater@,
            movies: self.movies@.map_values(|m: MovieWithScreenings| m@),
        }
    }
}

} // verus!
