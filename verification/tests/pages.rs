use film_finder::clock::CivilDate;
use film_finder::scrapers::cinestar::{cinestar_theater, parse_cinestar_datetime, CineStarCinema, CineStarMovie, CineStarShowtime};
use film_finder::scrapers::critic::{cinema_markers, cinema_url, critic_theater, parse_cinema_page, parse_date_headers};
use film_finder::scrapers::uci::{parse_theater_page, program_url, uci_theater};
use film_finder::scrapers::yorck::{extract_next_data, parse_session, yorck_theaters, NextDataError, SessionError, YorckCinema, YorckFilm, YorckSession};

const UCI_PAGE: &str = r#"<html><body>
<div data-film-container data-film-id="F1">
  <h2 class="film-container__description__text__eventtitle"><a> Dune  </a></h2>
  <ul class="film-info infolist"><li>166min</li><li>FSK 12</li></ul>
  <a class="badge-performance attribute-ov attribute-imax" data-time="'17:15'" data-date="20251227" href="/booking/1">17:15</a>
  <a class="badge-performance" data-time="'20:00'" data-date="20251227" href="/booking/1">again</a>
  <a class="badge-performance attribute-omu" data-time="bad" href="/booking/2">x</a>
  <a class="badge-performance attribute-omeu" data-time="21:00" href="/booking/3">y</a>
  <a class="badge-performance">no link</a>
</div>
<div data-film-container data-film-id="F2">
  <h2 class="film-container__description__text__eventtitle"><a>No shows</a></h2>
  <a class="badge-performance" data-time="'18:00'" href="/booking/1">seen</a>
</div>
<div data-film-container data-film-id="F3"><p>no title</p></div>
</body></html>"#;

fn today() -> CivilDate {
    CivilDate { year: 2025, month: 12, day: 28 }
}

#[test]
fn uci_program_page_movies_and_screenings() {
    let movies = parse_theater_page(UCI_PAGE, 1_000, today());
    assert_eq!(movies.len(), 1);
    let m = &movies[0];
    assert_eq!(m.movie.external_id, Some("F1".to_string()));
    assert_eq!(m.movie.title, "Dune");
    assert_eq!(m.movie.runtime_minutes, Some(166));
    assert_eq!(m.movie.rating, Some("FSK 12".to_string()));
    assert_eq!(m.screenings.len(), 2);
    let a = &m.screenings[0];
    assert_eq!(a.showtime, 1766852100);
    assert!(a.is_ov && !a.is_omu && !a.is_english_subs && !a.is_3d);
    assert_eq!(a.screening_type, Some("IMAX".to_string()));
    assert_eq!(a.booking_url, Some("https://www.uci-kinowelt.de/booking/1".to_string()));
    let b = &m.screenings[1];
    assert_eq!(b.showtime, 1766952000);
    assert!(!b.is_ov && b.is_english_subs);
    assert_eq!(b.booking_url, Some("https://www.uci-kinowelt.de/booking/3".to_string()));
}

#[test]
fn uci_booking_links_are_unique_on_a_page() {
    let movies = parse_theater_page(UCI_PAGE, 1_000, today());
    let mut links: Vec<String> = Vec::new();
    for m in &movies {
        assert!(!m.screenings.is_empty());
        for s in &m.screenings {
            let l = s.booking_url.clone().unwrap();
            assert!(!links.contains(&l));
            links.push(l);
        }
    }
}

#[test]
fn uci_section_default_marks_all_badges_ov() {
    let page = r#"<div data-film-container data-film-id="9">
      <h2 class="film-container__description__text__eventtitle"><a>Past Lives</a></h2>
      <ul class="legend"><li data-attribute-id="ov">OV</li></ul>
      <a class="badge-performance" data-time="'20:00'" data-date="20251227" href="/b/9">20:00</a>
    </div>"#;
    let movies = parse_theater_page(page, 0, today());
    assert_eq!(movies.len(), 1);
    assert!(movies[0].screenings[0].is_ov);
    assert_eq!(movies[0].screenings[0].showtime, 1766862000);
}

#[test]
fn uci_theater_record_and_urls() {
    let t = uci_theater("82", "UCI Berlin - East Side Gallery | Luxe", "Mercedes-Platz 2, 10243 Berlin", "52.5063", "13.4517");
    assert_eq!(t.external_id, "82");
    assert_eq!(t.city, Some("Berlin".to_string()));
    assert_eq!(t.url, Some("https://www.uci-kinowelt.de/kinoprogramm/berlin-east-side-gallery-luxe".to_string()));
    assert_eq!(t.latitude, Some("52.5063".to_string()));
    assert_eq!(program_url("UCI Potsdam | Luxe", "59"), "https://www.uci-kinowelt.de/kinoprogramm/potsdam-luxe/59");
}

const CRITIC_PAGE: &str = "<html><body><section id=\"filme\">
 <article class=\"movie highlight_movie_413622 other\">
  <h3><a>Hook (OF)</a></h3>
  <table class=\"vorstellung\">
   <thead><tr><th> Today </th><th>Thu 08/01</th><th>???</th></tr></thead>
   <tbody>
    <tr><td>17:15\n20:00</td><td>20.00</td><td>18:30</td><td>9:00</td></tr>
   </tbody>
  </table>
 </article>
 <article class=\"x\"><h3><a>Empty (OmU)</a></h3></article>
 <article><p>no title</p></article>
</section></body></html>";

#[test]
fn critic_program_page_columns_and_lines() {
    let day = CivilDate { year: 2025, month: 12, day: 27 };
    let movies = parse_cinema_page(CRITIC_PAGE, day);
    assert_eq!(movies.len(), 1);
    let m = &movies[0];
    assert_eq!(m.movie.title, "Hook");
    assert_eq!(m.movie.external_id, Some("413622".to_string()));
    let times: Vec<i64> = m.screenings.iter().map(|s| s.showtime).collect();
    assert_eq!(times, vec![1766852100, 1766862000, 1767898800, 1767029400]);
    for s in &m.screenings {
        assert!(s.is_ov && !s.is_omu && !s.is_english_subs && !s.is_3d);
        assert_eq!(s.booking_url, None);
    }
}

#[test]
fn critic_article_queries_see_enclosing_elements() {
    let page = "<html><body><section id=\"filme\"><h3><article class=\"highlight_movie_7\"><a>Outer (OmU)</a>
      <table class=\"vorstellung\"><thead><tr><th>Today</th></tr></thead><tbody><tr><td>19:00</td></tr></tbody></table>
      </article></h3></section></body></html>";
    let day = CivilDate { year: 2025, month: 12, day: 27 };
    let movies = parse_cinema_page(page, day);
    assert_eq!(movies.len(), 1);
    assert_eq!(movies[0].movie.title, "Outer");
    assert_eq!(movies[0].movie.external_id, Some("7".to_string()));
    assert_eq!(movies[0].screenings.len(), 1);
    assert_eq!(movies[0].screenings[0].showtime, 1766858400);
    assert!(movies[0].screenings[0].is_omu);
}

#[test]
fn critic_date_headers() {
    let day = CivilDate { year: 2025, month: 12, day: 27 };
    let headers = vec!["Heute".to_string(), "Do, 08.01.".to_string(), "Mon 29/12".to_string(), "soon".to_string(), "31/02".to_string()];
    let dates = parse_date_headers(&headers, day);
    assert_eq!(dates, vec![
        Some(day),
        Some(CivilDate { year: 2026, month: 1, day: 8 }),
        Some(CivilDate { year: 2025, month: 12, day: 29 }),
        Some(CivilDate { year: 2025, month: 12, day: 30 }),
        Some(CivilDate { year: 2025, month: 12, day: 31 }),
    ]);
}

#[test]
fn critic_markers_and_theater() {
    let html = r#"x addMarker(false,"52.5043600","13.3195000","Filmkunst 66","Bleibtreustraße 12","10623","Berlin","https://www.critic.de/ov-movies-berlin/cinema/filmkunst-66/") y
addMarker(false,"52.39","13.06","Thalia","Rudolf-Breitscheid-Str. 50","14482","Potsdam","https://www.critic.de/ov-movies-berlin/cinema/thalia/")"#;
    let cinemas = cinema_markers(html);
    assert_eq!(cinemas.len(), 1);
    let c = &cinemas[0];
    assert_eq!(c.slug, "filmkunst-66");
    assert_eq!(c.name, "Filmkunst 66");
    assert_eq!(c.latitude, "52.5043600");
    let t = critic_theater(c);
    assert_eq!(t.address, Some("Bleibtreustraße 12, 10623 Berlin".to_string()));
    assert_eq!(t.url, Some("https://www.critic.de/ov-movies-berlin/cinema/filmkunst-66/".to_string()));
    assert_eq!(cinema_url("x"), "https://www.critic.de/ov-movies-berlin/cinema/x/");
}

#[test]
fn yorck_next_data_and_errors() {
    let page = r#"<script id="__NEXT_DATA__" type="application/json">{"a":1}</script>"#;
    assert_eq!(extract_next_data(page), Ok("{\"a\":1}".to_string()));
    assert_eq!(extract_next_data("<html></html>"), Err(NextDataError::MissingStart));
    assert_eq!(extract_next_data(r#"__NEXT_DATA__" type="application/json">{"#), Err(NextDataError::MissingEnd));
}

fn session(start: &str, formats: &[&str], cinema: &str) -> YorckSession {
    YorckSession {
        start_time: start.to_string(),
        formats: formats.iter().map(|f| f.to_string()).collect(),
        cinema_name: cinema.to_string(),
    }
}

#[test]
fn yorck_session_reads_wall_clock_as_berlin() {
    let s = parse_session(&session("2025-07-01T20:00:00+01:00", &["OV", "Dolby Atmos"], "Delphi Lux")).unwrap();
    assert_eq!(s.showtime, 1751392800);
    assert!(s.is_ov && !s.is_omu && !s.is_english_subs && !s.is_3d);
    assert_eq!(s.screening_type, Some("Dolby Atmos".to_string()));
    let detail = chrono::DateTime::parse_from_rfc3339("nonsense").unwrap_err().to_string();
    let bad = parse_session(&session("nonsense", &[], "X")).unwrap_err();
    assert_eq!(bad, SessionError::UnreadableStartTime("nonsense".to_string(), detail.clone()));
    assert_eq!(bad.message(), format!("Failed to parse showtime 'nonsense': {}", detail));
    let gap = parse_session(&session("2025-03-30T02:30:00+01:00", &[], "X")).unwrap_err();
    assert_eq!(gap, SessionError::NoSingleLocalTime("2025-03-30T02:30:00+01:00".to_string()));
    assert_eq!(gap.message(), "Ambiguous or non-existent local time: 2025-03-30T02:30:00+01:00");
}

fn yorck_cinemas() -> Vec<YorckCinema> {
    vec![
        YorckCinema { name: "Delphi Lux".to_string(), slug: None, address: "old".to_string(), latitude: None, longitude: None },
        YorckCinema {
            name: "Delphi Lux".to_string(),
            slug: Some("delphi-lux".to_string()),
            address: "Kantstr. 10".to_string(),
            latitude: Some("52.5".to_string()),
            longitude: Some("13.3".to_string()),
        },
        YorckCinema { name: "Babylon".to_string(), slug: None, address: String::new(), latitude: None, longitude: None },
    ]
}

#[test]
fn yorck_groups_sessions_by_theater_and_film() {
    let films = vec![
        YorckFilm {
            id: "a".to_string(),
            title: "Anora".to_string(),
            runtime: Some(139),
            fsk: Some(16),
            sessions: vec![
                session("2025-07-01T20:00:00+01:00", &["OV"], "Delphi Lux"),
                session("2025-07-02T18:00:00+01:00", &["OmU"], "Babylon"),
            ],
        },
        YorckFilm {
            id: "b".to_string(),
            title: "Flow".to_string(),
            runtime: None,
            fsk: None,
            sessions: vec![session("2025-07-01T15:00:00+01:00", &["OmeU", "3D"], "Delphi Lux")],
        },
    ];
    let ts = yorck_theaters(&yorck_cinemas(), &films).unwrap();
    assert_eq!(ts.len(), 2);
    assert_eq!(ts[0].theater.name, "Delphi Lux");
    assert_eq!(ts[0].theater.address, Some("Kantstr. 10".to_string()));
    assert_eq!(ts[0].theater.url, Some("https://www.yorck.de/en/cinemas/delphi-lux".to_string()));
    assert_eq!(ts[0].theater.latitude, Some("52.5".to_string()));
    assert_eq!(ts[0].movies.len(), 2);
    assert_eq!(ts[0].movies[0].movie.rating, Some("FSK 16".to_string()));
    assert_eq!(ts[0].movies[0].screenings[0].showtime, 1751392800);
    assert_eq!(ts[0].movies[1].movie.external_id, Some("b".to_string()));
    assert!(ts[0].movies[1].screenings[0].is_english_subs && ts[0].movies[1].screenings[0].is_3d);
    assert_eq!(ts[1].theater.name, "Babylon");
    assert_eq!(ts[1].theater.address, None);
    assert_eq!(ts[1].theater.url, None);
    assert_eq!(ts[1].movies[0].screenings[0].showtime, 1751472000);
    assert!(ts[1].movies[0].screenings[0].is_omu);
    let mut names: Vec<&String> = ts.iter().map(|t| &t.theater.name).collect();
    names.dedup();
    assert_eq!(names.len(), ts.len());
}

#[test]
fn yorck_first_bad_session_fails_the_whole_page() {
    let films = vec![YorckFilm {
        id: "a".to_string(),
        title: "Anora".to_string(),
        runtime: None,
        fsk: None,
        sessions: vec![
            session("2025-07-01T20:00:00+01:00", &[], "Delphi Lux"),
            session("later", &[], "Delphi Lux"),
            session("worse", &[], "Delphi Lux"),
        ],
    }];
    assert_eq!(
        yorck_theaters(&yorck_cinemas(), &films).unwrap_err(),
        SessionError::UnreadableStartTime(
            "later".to_string(),
            chrono::DateTime::parse_from_rfc3339("later").unwrap_err().to_string()
        )
    );
}

#[test]
fn cinestar_datetime_and_theater() {
    assert_eq!(parse_cinestar_datetime("2025-12-27 16:00 CET"), Some(1766847600));
    assert_eq!(parse_cinestar_datetime("2025-12-27"), None);
    assert_eq!(parse_cinestar_datetime("garbage here"), None);
    let info = CineStarCinema {
        name: "CineStar CUBIX".to_string(),
        slug: Some("berlin-cubix".to_string()),
        city: "Berlin".to_string(),
        street: "Rathausstr. 1".to_string(),
        zip: "10178".to_string(),
        lat: Some("52.52".to_string()),
        lng: None,
    };
    let movies = vec![
        CineStarMovie {
            id: 77,
            title: "Wicked".to_string(),
            showtimes: vec![
                CineStarShowtime { id: 5, datetime: "2025-12-27 16:00 CET".to_string(), attributes: vec!["AUDIO_OV".to_string(), "Dolby Atmos".to_string()] },
                CineStarShowtime { id: 6, datetime: "bad".to_string(), attributes: vec![] },
            ],
        },
        CineStarMovie { id: 78, title: "None".to_string(), showtimes: vec![] },
    ];
    let t = cinestar_theater("3", info, movies);
    assert_eq!(t.theater.address, Some("Rathausstr. 1, 10178 Berlin".to_string()));
    assert_eq!(t.theater.url, Some("https://www.cinestar.de/kino/berlin-cubix".to_string()));
    assert_eq!(t.movies.len(), 1);
    assert_eq!(t.movies[0].movie.external_id, Some("77".to_string()));
    let s = &t.movies[0].screenings;
    assert_eq!(s.len(), 1);
    assert!(s[0].is_ov);
    assert_eq!(s[0].screening_type, Some("Dolby Atmos".to_string()));
    assert_eq!(s[0].booking_url, Some("https://www.cinestar.de/tickets/5".to_string()));
}
