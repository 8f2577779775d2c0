use film_finder::settings::{parse_pid, socks_proxy_url, update_interval_hours};
use film_finder::tmdb::{
    credits_from_crew, credits_url, genres_string, genres_url, german_details_url, poster_url_of,
    release_year, search_url, tmdb_movie_from, tmdb_movie_url, CrewMember, MovieSearchResult,
};
use std::collections::HashMap;

fn crew(id: i32, name: &str, job: &str) -> CrewMember {
    CrewMember { id, name: name.to_string(), job: job.to_string() }
}

#[test]
fn credits_pick_directors_writers_and_camera() {
    let c = credits_from_crew(&vec![
        crew(1, "A", "Director"),
        crew(2, "B", "Writer"),
        crew(2, "B", "Screenplay"),
        crew(3, "C", "Screenplay"),
        crew(4, "D", "Director of Photography"),
        crew(5, "E", "Director"),
        crew(6, "F", "Director of Photography"),
    ]);
    assert_eq!(c.director, Some("A, E".to_string()));
    assert_eq!(c.director_id, Some(1));
    assert_eq!(c.writer, Some("B, C".to_string()));
    assert_eq!(c.writer_id, Some(2));
    assert_eq!(c.cinematographer, Some("D".to_string()));
    assert_eq!(c.cinematographer_id, Some(4));
    let none = credits_from_crew(&vec![]);
    assert_eq!(none.director, None);
    assert_eq!(none.writer_id, None);
}

#[test]
fn tmdb_urls() {
    assert_eq!(
        search_url("k", "Amélie & co"),
        "https://api.themoviedb.org/3/search/movie?api_key=k&query=Am%C3%A9lie%20%26%20co&language=en-US&page=1"
    );
    assert_eq!(genres_url("k"), "https://api.themoviedb.org/3/genre/movie/list?api_key=k&language=en-US");
    assert_eq!(credits_url("k", 550), "https://api.themoviedb.org/3/movie/550/credits?api_key=k");
    assert_eq!(german_details_url("k", 550), "https://api.themoviedb.org/3/movie/550?api_key=k&language=de-DE");
    assert_eq!(poster_url_of("/p.jpg"), "https://image.tmdb.org/t/p/w500/p.jpg");
    assert_eq!(tmdb_movie_url(550), "https://www.themoviedb.org/movie/550");
}

#[test]
fn release_years_and_genres() {
    assert_eq!(release_year("2019-05-30"), Some(2019));
    assert_eq!(release_year("20"), None);
    assert_eq!(release_year("abcd-01-01"), None);
    let mut genres = HashMap::new();
    genres.insert(28, "Action".to_string());
    genres.insert(12, "Adventure".to_string());
    assert_eq!(genres_string(&vec![28, 99, 12], &genres), "Action, Adventure");
    assert_eq!(genres_string(&vec![], &genres), "");
}

#[test]
fn tmdb_movie_assembled_from_parts() {
    let mut genres = HashMap::new();
    genres.insert(18, "Drama".to_string());
    let result = MovieSearchResult {
        id: 550,
        title: "Fight Club".to_string(),
        original_title: "Fight Club".to_string(),
        original_language: "en".to_string(),
        release_date: Some("1999-10-15".to_string()),
        overview: None,
        poster_path: Some("/f.jpg".to_string()),
        genre_ids: vec![18],
    };
    let credits = credits_from_crew(&vec![crew(7467, "David Fincher", "Director")]);
    let m = tmdb_movie_from(result, &genres, credits, Some("Fight Club".to_string()));
    assert_eq!(m.tmdb_id, 550);
    assert_eq!(m.year, Some(1999));
    assert_eq!(m.genres, "Drama");
    assert_eq!(m.overview, "");
    assert_eq!(m.poster_url, Some("https://image.tmdb.org/t/p/w500/f.jpg".to_string()));
    assert_eq!(m.director, Some("David Fincher".to_string()));
    assert_eq!(m.director_id, Some(7467));
}

#[test]
fn settings_from_environment_values() {
    assert_eq!(socks_proxy_url(Some("  socks5://127.0.0.1:1080 ")), Some("socks5://127.0.0.1:1080".to_string()));
    assert_eq!(socks_proxy_url(Some("   ")), None);
    assert_eq!(socks_proxy_url(None), None);
    assert_eq!(update_interval_hours(Some("6")), 6);
    assert_eq!(update_interval_hours(Some("six")), 12);
    assert_eq!(update_interval_hours(None), 12);
    assert_eq!(parse_pid(" 4242\n"), Some(4242));
    assert_eq!(parse_pid("pid"), None);
}
