//! TMDB metadata: crew credits, search results and request URLs.
use crate::models::opt_view;
use crate::text::{chars_eq_str, chars_of, decimal, join, parse_i32, parse_i32_spec};
use crate::theaters::byte_len;
use std::collections::HashMap;
use vstd::prelude::*;
use vstd::string::StringExecFns;

verus! {

pub const TMDB_API_BASE: &'static str = "https://api.themoviedb.org/3";

pub const TMDB_IMAGE_BASE: &'static str = "https://image.tmdb.org/t/p/w500";

// ---------------------------------------------------------------------
// Credits
// ---------------------------------------------------------------------

/// Crew member from TMDB credits.
#[derive(Debug)]
pub struct CrewMember {
    pub id: i32,
    pub name: String,
    pub job: String,
}

pub struct CrewMemberV {
    pub id: i32,
    pub name: Seq<char>,
    pub job: Seq<char>,
}

impl View for CrewMember {
    type V = CrewMemberV;

    open spec fn view(&self) -> CrewMemberV {
        CrewMemberV { id: self.id, name: self.name@, job: self.job@ }
    }
}

/// Director, writer and cinematographer of a movie, with TMDB person ids.
#[derive(Debug)]
pub struct Credits {
    pub director: Option<String>,
    pub director_id: Option<i32>,
    pub writer: Option<String>,
    pub writer_id: Option<i32>,
    pub cinematographer: Option<String>,
    pub cinematographer_id: Option<i32>,
}

pub struct CreditsV {
    pub director: Option<Seq<char>>,
    pub director_id: Option<i32>,
    pub writer: Option<Seq<char>>,
    pub writer_id: Option<i32>,
    pub cinematographer: Option<Seq<char>>,
    pub cinematographer_id: Option<i32>,
}

impl View for Credits {
    type V = CreditsV;

    open spec fn view(&self) -> CreditsV {
        CreditsV {
            director: opt_view(self.director),
            director_id: self.director_id,
            writer: opt_view(self.writer),
            writer_id: self.writer_id,
            cinematographer: opt_view(self.cinematographer),
            cinematographer_id: self.cinematographer_id,
        }
    }
}

pub open spec fn is_director(c: CrewMemberV) -> bool {
    c.job == "Director"@
}

pub open spec fn is_writer(c: CrewMemberV) -> bool {
    c.job == "Screenplay"@ || c.job == "Writer"@
}

pub open spec fn is_cinematographer(c: CrewMemberV) -> bool {
    c.job == "Director of Photography"@
}

/// The directors, in credit order.
pub open spec fn directors(crew: Seq<CrewMemberV>) -> Seq<CrewMemberV>
    decreases crew.len(),
{
    if crew.len() == 0 {
        Seq::empty()
    } else if is_director(crew.last()) {
        directors(crew.drop_last()).push(crew.last())
    } else {
        directors(crew.drop_last())
    }
}

pub open spec fn has_id(s: Seq<CrewMemberV>, id: i32) -> bool {
    exists|i: int| 0 <= i < s.len() && s[i].id == id
}

/// The writers (Screenplay or Writer), in credit order, each person only
/// at their first credit.
pub open spec fn writers(crew: Seq<CrewMemberV>) -> Seq<CrewMemberV>
    decreases crew.len(),
{
    if crew.len() == 0 {
        Seq::empty()
    } else {
        let w = writers(crew.drop_last());
        if is_writer(crew.last()) && !has_id(w, crew.last().id) {
            w.push(crew.last())
        } else {
            w
        }
    }
}

/// The first Director of Photography.
pub open spec fn first_cinematographer(crew: Seq<CrewMemberV>) -> Option<CrewMemberV>
    decreases crew.len(),
{
    if crew.len() == 0 {
        None
    } else if is_cinematographer(crew[0]) {
        Some(crew[0])
    } else {
        first_cinematographer(crew.drop_first())
    }
}

pub open spec fn names(s: Seq<CrewMemberV>) -> Seq<Seq<char>> {
    s.map_values(|c: CrewMemberV| c.name)
}

/// Credits as shown: all names of a role joined by ", ", with the first
/// person's id.
pub open spec fn credits_of(crew: Seq<CrewMemberV>) -> CreditsV {
    let d = directors(crew);
    let w = writers(crew);
    let c = first_cinematographer(crew);
    CreditsV {
        director: if d.len() == 0 {
            None
        } else {
            Some(join(names(d), ", "@))
        },
        director_id: if d.len() == 0 {
            None
        } else {
            Some(d[0].id)
        },
        writer: if w.len() == 0 {
            None
        } else {
            Some(join(names(w), ", "@))
        },
        writer_id: if w.len() == 0 {
            None
        } else {
            Some(w[0].id)
        },
        cinematographer: match c {
            Some(m) => Some(m.name),
            None => None,
        },
        cinematographer_id: match c {
            Some(m) => Some(m.id),
            None => None,
        },
    }
}

/// Appends `name` to a ", "-joined list.
fn join_push(out: &mut String, count: usize, name: &str, Ghost(parts): Ghost<Seq<Seq<char>>>)
    requires
        old(out)@ == join(parts, ", "@),
        count == parts.len(),
    ensures
        final(out)@ == join(parts.push(name@), ", "@),
{
    assert(parts.push(name@).drop_last() =~= parts);
    if count > 0 {
        out.append(", ");
    }
    out.append(name);
    proof {
        if parts.len() == 0 {
            assert(old(out)@ =~= Seq::<char>::empty());
            assert(out@ =~= name@);
        }
    }
}

fn is_job(c: &CrewMember, job: &str) -> (b: bool)
    ensures
        b == (c@.job == job@),
{
    let j = chars_of(c.job.as_str());
    chars_eq_str(&j, job)
}

proof fn lemma_cinematographer_step(crew: Seq<CrewMemberV>, i: int)
    requires
        0 <= i < crew.len(),
        !is_cinematographer(crew[i]),
    ensures
        first_cinematographer(crew.skip(i)) == first_cinematographer(crew.skip(i + 1)),
{
    assert(crew.skip(i).drop_first() =~= crew.skip(i + 1));
}

/// Picks directors, writers and the cinematographer from a movie's crew.
pub fn credits_from_crew(crew: &Vec<CrewMember>) -> (r: Credits)
    ensures
        r@ == credits_of(crew@.map_values(|c: CrewMember| c@)),
{
    let ghost cv = crew@.map_values(|c: CrewMember| c@);
    let mut director = String::new();
    let mut director_count: usize = 0;
    let mut director_id: Option<i32> = None;
    let mut writer = String::new();
    let mut writer_ids: Vec<i32> = Vec::new();
    let mut writer_id: Option<i32> = None;
    let mut cinematographer: Option<String> = None;
    let mut cinematographer_id: Option<i32> = None;
    let mut i: usize = 0;
    assert(cv.skip(0) =~= cv);
    while i < crew.len()
        invariant
            i <= crew.len(),
            cv == crew@.map_values(|c: CrewMember| c@),
            director@ == join(names(directors(cv.take(i as int))), ", "@),
            director_count == directors(cv.take(i as int)).len(),
            director_count <= i,
            director_id == (if directors(cv.take(i as int)).len() == 0 {
                None
            } else {
                Some(directors(cv.take(i as int))[0].id)
            }),
            writer@ == join(names(writers(cv.take(i as int))), ", "@),
            writer_ids@ == writers(cv.take(i as int)).map_values(|c: CrewMemberV| c.id),
            writer_id == (if writers(cv.take(i as int)).len() == 0 {
                None
            } else {
                Some(writers(cv.take(i as int))[0].id)
            }),
            match cinematographer {
                Some(n) => first_cinematographer(cv) == Some(CrewMemberV { id: cinematographer_id->0, name: n@, job: "Director of Photography"@ }) && cinematographer_id is Some,
                None => cinematographer_id is None && first_cinematographer(cv) == first_cinematographer(cv.skip(i as int)),
            },
        decreases crew.len() - i,
    {
        let c = &crew[i];
        let ghost prev = cv.take(i as int);
        let ghost next = cv.take(i + 1);
        assert(next.drop_last() =~= prev);
        assert(next.last() == c@);
        let ghost d_prev = directors(prev);
        let ghost w_prev = writers(prev);
        if is_job(c, "Director") {
            join_push(&mut director, director_count, c.name.as_str(), Ghost(names(d_prev)));
            assert(names(d_prev).push(c@.name) =~= names(d_prev.push(c@)));
            if director_count == 0 {
                director_id = Some(c.id);
            }
            director_count = director_count + 1;
            assert(directors(next) == d_prev.push(c@));
        }
        if is_job(c, "Screenplay") || is_job(c, "Writer") {
            let mut seen = false;
            let mut k: usize = 0;
            while k < writer_ids.len()
                invariant
                    k <= writer_ids.len(),
                    writer_ids@ == w_prev.map_values(|c: CrewMemberV| c.id),
                    seen == (exists|j: int| 0 <= j < k && w_prev[j].id == c.id),
                decreases writer_ids.len() - k,
            {
                if writer_ids[k] == c.id {
                    seen = true;
                }
                k = k + 1;
            }
            assert(seen == has_id(w_prev, c.id));
            if !seen {
                join_push(&mut writer, writer_ids.len(), c.name.as_str(), Ghost(names(w_prev)));
                assert(names(w_prev).push(c@.name) =~= names(w_prev.push(c@)));
                if writer_ids.len() == 0 {
                    writer_id = Some(c.id);
                }
                writer_ids.push(c.id);
                assert(w_prev.push(c@).map_values(|c: CrewMemberV| c.id) =~= w_prev.map_values(
                    |c: CrewMemberV| c.id,
                ).push(c.id));
            }
        }
        if cinematographer.is_none() {
            if is_job(c, "Director of Photography") {
                assert(cv.skip(i as int)[0] == c@);
                cinematographer = Some(c.name.clone());
                cinematographer_id = Some(c.id);
            } else {
                proof {
                    lemma_cinematographer_step(cv, i as int);
                }
            }
        }
        i = i + 1;
    }
    proof {
        assert(cv.take(crew.len() as int) =~= cv);
        assert(cv.skip(crew.len() as int) =~= Seq::<CrewMemberV>::empty());
    }
    Credits {
        director: if director_count == 0 {
            None
        } else {
            Some(director)
        },
        director_id,
        writer: if writer_ids.len() == 0 {
            None
        } else {
            Some(writer)
        },
        writer_id,
        cinematographer,
        cinematographer_id,
    }
}


// ---------------------------------------------------------------------
// Request URLs
// ---------------------------------------------------------------------

/// A byte that `urlencoding` leaves as it is.
pub open spec fn url_safe_byte(b: u8) -> bool {
    (48 <= b <= 57) || (65 <= b <= 90) || (97 <= b <= 122) || b == 45 || b == 46 || b == 95 || b
        == 126
}

pub open spec fn hex_upper(d: int) -> char {
    if d < 10 {
        (48 + d) as char
    } else {
        (55 + d) as char
    }
}

/// Percent-encoding of bytes: safe bytes kept, others written `%XX`.
pub open spec fn percent_encoded(bytes: Seq<u8>) -> Seq<char>
    decreases bytes.len(),
{
    if bytes.len() == 0 {
        Seq::empty()
    } else {
        let b = bytes[0];
        let head = if url_safe_byte(b) {
            seq![b as char]
        } else {
            seq!['%', hex_upper(b as int / 16), hex_upper(b as int % 16)]
        };
        head + percent_encoded(bytes.drop_first())
    }
}

/// `urlencoding::encode`: percent-encodes every UTF-8 byte except ASCII
/// letters, digits and `-`, `.`, `_`, `~`.
#[verifier::external_body]
pub(crate) fn url_encode(s: &str) -> (r: String)
    ensures
        r@ == percent_encoded(vstd::utf8::encode_utf8(s@)),
{
    urlencoding::encode(s).into_owned()
}

/// The movie search request for a title.
pub open spec fn search_url_of(api_key: Seq<char>, title: Seq<char>) -> Seq<char> {
    TMDB_API_BASE@ + "/search/movie?api_key="@ + api_key + "&query="@ + percent_encoded(
        vstd::utf8::encode_utf8(title),
    ) + "&language=en-US&page=1"@
}

pub fn search_url(api_key: &str, title: &str) -> (r: String)
    ensures
        r@ == search_url_of(api_key@, title@),
{
    let mut u = String::from_str(TMDB_API_BASE);
    u.append("/search/movie?api_key=");
    u.append(api_key);
    u.append("&query=");
    let enc = url_encode(title);
    u.append(enc.as_str());
    u.append("&language=en-US&page=1");
    u
}

/// The genre list request.
pub fn genres_url(api_key: &str) -> (r: String)
    ensures
        r@ == TMDB_API_BASE@ + "/genre/movie/list?api_key="@ + api_key@ + "&language=en-US"@,
{
    let mut u = String::from_str(TMDB_API_BASE);
    u.append("/genre/movie/list?api_key=");
    u.append(api_key);
    u.append("&language=en-US");
    u
}

fn decimal_str(n: i32) -> (r: String)
    ensures
        r@ == decimal(n as int),
{
    crate::text::decimal_string(n as i64)
}

/// The credits request for a movie.
pub fn credits_url(api_key: &str, movie_id: i32) -> (r: String)
    ensures
        r@ == TMDB_API_BASE@ + "/movie/"@ + decimal(movie_id as int) + "/credits?api_key="@ + api_key@,
{
    let mut u = String::from_str(TMDB_API_BASE);
    u.append("/movie/");
    let id = decimal_str(movie_id);
    u.append(id.as_str());
    u.append("/credits?api_key=");
    u.append(api_key);
    u
}

/// The German-language details request for a movie.
pub fn german_details_url(api_key: &str, movie_id: i32) -> (r: String)
    ensures
        r@ == TMDB_API_BASE@ + "/movie/"@ + decimal(movie_id as int) + "?api_key="@ + api_key@ + "&language=de-DE"@,
{
    let mut u = String::from_str(TMDB_API_BASE);
    u.append("/movie/");
    let id = decimal_str(movie_id);
    u.append(id.as_str());
    u.append("?api_key=");
    u.append(api_key);
    u.append("&language=de-DE");
    u
}

// ---------------------------------------------------------------------
// Search results
// ---------------------------------------------------------------------

/// Movie search result from TMDB.
#[derive(Debug)]
pub struct MovieSearchResult {
    pub id: i32,
    pub title: String,
    pub original_title: String,
    pub original_language: String,
    pub release_date: Option<String>,
    pub overview: Option<String>,
    pub poster_path: Option<String>,
    pub genre_ids: Vec<i32>,
}

/// Enriched movie data from TMDB.
#[derive(Debug)]
pub struct TmdbMovie {
    pub tmdb_id: i32,
    pub english_title: String,
    pub original_title: String,
    pub german_title: Option<String>,
    pub original_language: String,
    pub year: Option<i32>,
    pub genres: String,
    pub overview: String,
    pub poster_url: Option<String>,
    pub director: Option<String>,
    pub director_id: Option<i32>,
    pub writer: Option<String>,
    pub writer_id: Option<i32>,
    pub cinematographer: Option<String>,
    pub cinematographer_id: Option<i32>,
}

/// The first `k` characters of `d` take exactly `n` bytes.
pub open spec fn byte_prefix_at(d: Seq<char>, k: int, n: nat) -> bool {
    0 <= k <= d.len() && byte_len(d.take(k)) == n
}

/// Slicing the first four bytes (`d[..4]`) lands on a character boundary.
pub open spec fn four_byte_boundary(d: Seq<char>) -> bool {
    exists|k: int| byte_prefix_at(d, k, 4)
}

/// The year of a release date: its first four bytes read as an integer,
/// when the date is at least four bytes long.
pub open spec fn release_year_of(d: Seq<char>) -> Option<i32> {
    if byte_len(d) >= 4 {
        parse_i32_spec(d.take(choose|k: int| byte_prefix_at(d, k, 4)))
    } else {
        None
    }
}

proof fn lemma_byte_len_take_mono(d: Seq<char>, a: int, b: int)
    requires
        0 <= a < b <= d.len(),
    ensures
        byte_len(d.take(a)) < byte_len(d.take(b)),
    decreases b - a,
{
    assert(d.take(b).drop_last() =~= d.take(b - 1));
    if a < b - 1 {
        lemma_byte_len_take_mono(d, a, b - 1);
    }
}

proof fn lemma_byte_len_take_all(d: Seq<char>)
    ensures
        byte_len(d.take(d.len() as int)) == byte_len(d),
{
    assert(d.take(d.len() as int) =~= d);
}

/// The release year, read from the first four bytes of the date.
pub fn release_year(d: &str) -> (r: Option<i32>)
    requires
        byte_len(d@) >= 4 ==> four_byte_boundary(d@),
    ensures
        r == release_year_of(d@),
{
    let v = chars_of(d);
    let mut k: usize = 0;
    let mut bytes: u64 = 0;
    assert(v@.take(0) =~= Seq::<char>::empty());
    while k < v.len() && bytes < 4
        invariant
            k <= v.len(),
            v@ == d@,
            bytes == byte_len(v@.take(k as int)),
            bytes <= 7,
            k > 0 ==> byte_len(v@.take(k - 1)) < 4,
        decreases v.len() - k,
    {
        let c = v[k];
        let w: u64 = if (c as u32) < 0x80 {
            1
        } else if (c as u32) < 0x800 {
            2
        } else if (c as u32) < 0x10000 {
            3
        } else {
            4
        };
        assert(v@.take(k as int + 1).drop_last() =~= v@.take(k as int));
        bytes = bytes + w;
        k = k + 1;
    }
    if bytes < 4 {
        proof {
            lemma_byte_len_take_all(v@);
        }
        return None;
    }
    proof {
        lemma_byte_len_take_all(v@);
        if k < v.len() {
            lemma_byte_len_take_mono(v@, k as int, v.len() as int);
        }
        let j = choose|j: int| byte_prefix_at(d@, j, 4);
        if j < k {
            if j < k - 1 {
                lemma_byte_len_take_mono(v@, j, k - 1);
            }
        } else if j > k {
            lemma_byte_len_take_mono(v@, k as int, j);
        }
        assert(j == k);
    }
    let mut prefix: Vec<char> = Vec::new();
    let mut i: usize = 0;
    while i < k
        invariant
            i <= k <= v.len(),
            prefix@ == v@.take(i as int),
        decreases k - i,
    {
        prefix.push(v[i]);
        assert(v@.take(i as int + 1) =~= v@.take(i as int).push(v@[i as int]));
        i = i + 1;
    }
    parse_i32(&prefix)
}

/// The names of the genre ids that the genre list knows, in id order.
pub open spec fn genre_names(ids: Seq<i32>, genres: Map<i32, String>) -> Seq<Seq<char>>
    decreases ids.len(),
{
    if ids.len() == 0 {
        Seq::empty()
    } else {
        let rest = genre_names(ids.drop_last(), genres);
        if genres.contains_key(ids.last()) {
            rest.push(genres[ids.last()]@)
        } else {
            rest
        }
    }
}

/// Joins the names of known genre ids with ", ".
pub fn genres_string(ids: &Vec<i32>, genres: &HashMap<i32, String>) -> (r: String)
    ensures
        r@ == join(genre_names(ids@, genres@), ", "@),
{
    broadcast use vstd::std_specs::hash::group_hash_axioms;
    let mut out = String::new();
    let mut count: usize = 0;
    let mut i: usize = 0;
    while i < ids.len()
        invariant
            i <= ids.len(),
            out@ == join(genre_names(ids@.take(i as int), genres@), ", "@),
            count == genre_names(ids@.take(i as int), genres@).len(),
            count <= i,
        decreases ids.len() - i,
    {
        assert(ids@.take(i + 1).drop_last() =~= ids@.take(i as int));
        match genres.get(&ids[i]) {
            Some(name) => {
                join_push(&mut out, count, name.as_str(), Ghost(genre_names(ids@.take(i as int), genres@)));
                count = count + 1;
            },
            None => {},
        }
        i = i + 1;
    }
    assert(ids@.take(ids.len() as int) =~= ids@);
    out
}

/// The poster image URL for a poster path.
pub fn poster_url_of(path: &str) -> (r: String)
    ensures
        r@ == TMDB_IMAGE_BASE@ + path@,
{
    let mut u = String::from_str(TMDB_IMAGE_BASE);
    u.append(path);
    u
}

/// Whether a search result's release date can be cut at four bytes.
pub open spec fn release_date_sliceable(result: MovieSearchResult) -> bool {
    result.release_date matches Some(d) ==> (byte_len(d@) >= 4 ==> four_byte_boundary(d@))
}

/// Assembles the enriched movie from the first search result, the genre
/// list, the movie's credits and its German title.
pub fn tmdb_movie_from(
    result: MovieSearchResult,
    genre_map: &HashMap<i32, String>,
    credits: Credits,
    german_title: Option<String>,
) -> (r: TmdbMovie)
    requires
        release_date_sliceable(result),
    ensures
        r.tmdb_id == result.id,
        r.english_title@ == result.title@,
        r.original_title@ == result.original_title@,
        opt_view(r.german_title) == opt_view(german_title),
        r.original_language@ == result.original_language@,
        r.year == (match result.release_date {
            Some(d) => release_year_of(d@),
            None => None,
        }),
        r.genres@ == join(genre_names(result.genre_ids@, genre_map@), ", "@),
        r.overview@ == (match result.overview {
            Some(o) => o@,
            None => Seq::empty(),
        }),
        opt_view(r.poster_url) == (match result.poster_path {
            Some(p) => Some(TMDB_IMAGE_BASE@ + p@),
            None => None,
        }),
        opt_view(r.director) == credits@.director,
        r.director_id == credits@.director_id,
        opt_view(r.writer) == credits@.writer,
        r.writer_id == credits@.writer_id,
        opt_view(r.cinematographer) == credits@.cinematographer,
        r.cinematographer_id == credits@.cinematographer_id,
{
    let year = match &result.release_date {
        Some(d) => release_year(d.as_str()),
        None => None,
    };
    let genres = genres_string(&result.genre_ids, genre_map);
    let poster_url = match &result.poster_path {
        Some(p) => Some(poster_url_of(p.as_str())),
        None => None,
    };
    let overview = match result.overview {
        Some(o) => o,
        None => String::new(),
    };
    TmdbMovie {
        tmdb_id: result.id,
        english_title: result.title,
        original_title: result.original_title,
        german_title,
        original_language: result.original_language,
        year,
        genres,
        overview,
        poster_url,
        director: credits.director,
        director_id: credits.director_id,
        writer: credits.writer,
        writer_id: credits.writer_id,
        cinematographer: credits.cinematographer,
        cinematographer_id: credits.cinematographer_id,
    }
}

/// The TMDB page of a movie.
pub fn tmdb_movie_url(tmdb_id: i32) -> (r: String)
    ensures
        r@ == "https://www.themoviedb.org/movie/"@ + decimal(tmdb_id as int),
{
    let mut u = String::from_str("https://www.themoviedb.org/movie/");
    let id = decimal_str(tmdb_id);
    u.append(id.as_str());
    u
}

} // verus!
