use film_finder::commands::{
    cmd_films, cmd_list, cmd_list_filtered, cmd_ov, cmd_search, cmd_static, print_screening,
    read_showtime, screening_data_from_row, MovieInfo, ScreeningResult,
};
use film_finder::site_page::{generate_html, generate_json_ld, generate_sitemap, MovieData, ScreeningData};
use film_finder::static_site::{escape_html, escape_json, get_theater_chain, is_yorck_theater, normalize_theater_name};
use film_finder::theaters::{group_theaters, RawTheater, TheaterInfo};
use film_finder::assets::{generate_css, generate_headers, generate_js, generate_robots_txt};

fn screening(name: &str, showtime: i64) -> ScreeningData {
    ScreeningData {
        theater_name: name.to_string(),
        normalized_theater_name: normalize_theater_name(name),
        theater_url: Some("https://example.org/t?a=1&b=2".to_string()),
        showtime,
        is_ov: true,
        is_omu: false,
        is_english_subs: false,
        is_3d: false,
        screening_type: Some("IMAX".to_string()),
        booking_url: Some("https://example.org/book".to_string()),
    }
}

fn movie(id: i64, screenings: Vec<ScreeningData>) -> MovieData {
    MovieData {
        id,
        title: "Dune: Part Two".to_string(),
        english_title: Some("Dune <Part Two>".to_string()),
        original_title: Some("Dune: Part Two".to_string()),
        german_title: None,
        original_language: Some("en".to_string()),
        production_countries: None,
        year: Some(2024),
        runtime_minutes: Some(166),
        genres: Some("Science Fiction".to_string()),
        overview: Some("Paul joins the Fremen.".to_string()),
        poster_url: None,
        tmdb_url: Some("https://www.themoviedb.org/movie/693134".to_string()),
        director: Some("Denis Villeneuve".to_string()),
        director_id: Some(137427),
        writer: None,
        writer_id: None,
        cinematographer: None,
        cinematographer_id: None,
        screenings,
    }
}

#[test]
fn escaping_html_and_json() {
    assert_eq!(escape_html("<a href=\"x\">Tom & Jerry's</a>"), "&lt;a href=&quot;x&quot;&gt;Tom &amp; Jerry&#39;s&lt;/a&gt;");
    assert_eq!(escape_json("say \"hi\"\\\n\tok\r"), "say \\\"hi\\\"\\\\\\n\\tok\\r");
}

#[test]
fn escaped_html_has_no_markup_characters() {
    let e = escape_html("<<>>\"''&&<script>alert('x')</script>");
    assert!(!e.contains('<') && !e.contains('>') && !e.contains('"') && !e.contains('\''));
    let j = escape_json("line\nline\rline\t");
    assert!(!j.contains('\n') && !j.contains('\r') && !j.contains('\t'));
}

#[test]
fn theater_names_and_chains() {
    assert_eq!(normalize_theater_name("Kino in der KulturBrauerei"), "cinestar kulturbrauerei");
    assert_eq!(normalize_theater_name("UCI Kinowelt Berlin - East Side Gallery | Luxe"), "uci east side gallery");
    assert_eq!(normalize_theater_name("  Delphi   Filmpalast am Zoo "), "delphi filmpalast");
    assert_eq!(get_theater_chain("Babylon Kreuzberg"), "Yorck Kinos");
    assert_eq!(get_theater_chain("UCI Luxe"), "UCI");
    assert_eq!(get_theater_chain("CineStar Tegel"), "CineStar");
    assert_eq!(get_theater_chain("Filmkunst 66"), "Independent Cinemas");
    assert!(is_yorck_theater("odeon"));
    for name in ["  Odeon   Kino  ", "Kino\tIntimes\n", "Il Kino", " Yorck Kinos "] {
        let n = normalize_theater_name(name);
        assert!(!n.starts_with(char::is_whitespace) && !n.ends_with(char::is_whitespace));
        assert!(!n.contains("  ") && !n.contains('\t') && !n.contains('\n'));
    }
    assert_eq!(normalize_theater_name("  Odeon   Kino  "), "odeon");
    assert!(!is_yorck_theater("cinestar kino"));
}

#[test]
fn theaters_are_grouped_and_ordered() {
    let rows = vec![
        RawTheater { id: 1, name: "Kino in der KulturBrauerei".to_string(), url: None },
        RawTheater { id: 2, name: "CineStar Kulturbrauerei".to_string(), url: Some("https://k.example".to_string()) },
        RawTheater { id: 3, name: "Babylon".to_string(), url: None },
        RawTheater { id: 4, name: "UCI Eastgate".to_string(), url: None },
    ];
    let groups: Vec<TheaterInfo> = group_theaters(&rows);
    assert_eq!(groups.len(), 3);
    assert_eq!(groups[0].display_name, "Babylon");
    assert_eq!(groups[1].normalized_name, "cinestar kulturbrauerei");
    assert_eq!(groups[1].display_name, "Kino in der KulturBrauerei");
    assert_eq!(groups[1].db_ids, vec![1, 2]);
    assert_eq!(groups[1].url, Some("https://k.example".to_string()));
    assert_eq!(groups[2].chain, "UCI");
}

#[test]
fn sitemap_lists_home_and_movies() {
    let movies = vec![movie(7, vec![])];
    let expected = "<?xml version=\"1.0\" encoding=\"UTF-8\"?>
<urlset xmlns=\"http://www.sitemaps.org/schemas/sitemap/0.9\">
  <url>
    <loc>https://ovberlin.com/</loc>
    <lastmod>2024-01-01</lastmod>
    <changefreq>daily</changefreq>
    <priority>1.0</priority>
  </url>
  <url>
    <loc>https://ovberlin.com/#movie-7</loc>
    <lastmod>2024-01-01</lastmod>
    <changefreq>daily</changefreq>
    <priority>0.8</priority>
  </url>
</urlset>
";
    assert_eq!(generate_sitemap(&movies, 1704110400), expected);
}

#[test]
fn json_ld_describes_movies() {
    let ld = generate_json_ld(&vec![movie(7, vec![])]);
    assert!(ld.starts_with("<script type=\"application/ld+json\">"));
    assert!(ld.contains("\"name\": \"Dune <Part Two>\""));
    assert!(ld.contains("\"url\": \"https://ovberlin.com/#movie-7\""));
    assert!(ld.contains("\"director\": { \"@type\": \"Person\", \"name\": \"Denis Villeneuve\" }"));
    assert!(ld.ends_with("</script>"));
}

#[test]
fn page_groups_showtimes_by_day_in_order() {
    let movies = vec![movie(7, vec![screening("UCI Eastgate", 1766952000), screening("Babylon", 1766852100)])];
    let rows = vec![RawTheater { id: 3, name: "Babylon".to_string(), url: None }];
    let theaters = group_theaters(&rows);
    let html = generate_html(&movies, &theaters, 42, 1766852100);
    let first = html.find("data-date=\"2025-12-27\"").unwrap();
    let second = html.find("data-date=\"2025-12-28\"").unwrap();
    assert!(first < second);
    assert!(html.contains("<h4>Saturday, December 27</h4>"));
    assert!(html.contains("<time datetime=\"2025-12-27T16:15:00+00:00\">17:15</time>"));
    assert!(html.contains("<span class=\"screening-tags\">OV IMAX</span> <a href=\"https://example.org/book\""));
    assert!(html.contains("<a href=\"https://example.org/t?a=1&amp;b=2\" target=\"_blank\" rel=\"noopener\">Babylon</a>"));
    assert!(html.contains("data-theaters=\"uci eastgate,babylon\""));
    assert!(html.contains("data-dates=\"2025-12-28,2025-12-27\""));
    assert!(html.contains("Dune &lt;Part Two&gt; (2024)"));
    assert!(html.contains("Last updated: December 27, 2025 at 17:15"));
    assert!(html.contains("style.css?v=42"));
    assert!(html.contains("app.js?v=42"));
    assert!(html.contains("1 films at 1 cinemas"));
    assert!(html.contains("<strong>Yorck Kinos</strong>"));
    assert_eq!(html.matches("<li class=\"screening\"").count(), 2);
    assert_eq!(html.matches("<div class=\"screening-day\"").count(), 2);
}

#[test]
fn static_site_files() {
    let rows = vec![RawTheater { id: 3, name: "Babylon".to_string(), url: None }];
    let site = cmd_static(&rows, &vec![movie(7, vec![])], 1704110400);
    let names: Vec<&str> = site.files.iter().map(|f| f.name.as_str()).collect();
    assert_eq!(names, vec!["index.html", "style.css", "app.js", "sitemap.xml", "robots.txt", "_headers"]);
    assert_eq!(site.theaters.len(), 1);
    assert_eq!(site.files[1].contents, generate_css());
    assert_eq!(site.files[2].contents, generate_js());
    assert_eq!(site.files[4].contents, generate_robots_txt());
    assert_eq!(site.files[5].contents, generate_headers());
    assert!(site.files[3].contents.contains("<lastmod>2024-01-01</lastmod>"));
    assert_eq!(generate_robots_txt(), "User-agent: *\nAllow: /\n\nSitemap: https://ovberlin.com/sitemap.xml\n");
}

fn result(title: &str, showtime: i64, ov: bool) -> ScreeningResult {
    ScreeningResult {
        movie_title: title.to_string(),
        runtime_minutes: Some(166),
        theater_name: "UCI Eastgate".to_string(),
        city: Some("Berlin".to_string()),
        showtime,
        screening_type: Some("IMAX".to_string()),
        is_ov: ov,
        is_omu: false,
        is_english_subs: false,
        is_3d: true,
        booking_url: None,
    }
}

#[test]
fn screening_lines() {
    assert_eq!(print_screening(&result("Dune", 1766852100, true)), "  17:15 - Dune (166min) [OV, 3D, IMAX] @ UCI Eastgate");
    let mut plain = result("Dune", 1766852100, false);
    plain.is_3d = false;
    plain.screening_type = None;
    plain.runtime_minutes = None;
    assert_eq!(print_screening(&plain), "  17:15 - Dune @ UCI Eastgate");
}

#[test]
fn list_filters_past_title_and_ov() {
    let rows = vec![result("Old", 100, true), result("Dune", 1766852100, false), result("Dune Two", 1766952000, true), result("Heat", 1766952000, true)];
    let all = cmd_list(&rows, None, 1_000);
    assert_eq!(all.len(), 4);
    assert_eq!(all[3], "\n3 upcoming screenings");
    let dune_ov = cmd_list_filtered(&rows, Some("DUNE"), true, 1_000);
    assert_eq!(dune_ov, vec!["  21:00 - Dune Two (166min) [OV, 3D, IMAX] @ UCI Eastgate".to_string(), "\n1 upcoming screenings".to_string()]);
    assert_eq!(cmd_list(&vec![], None, 0), vec!["No screenings found. Run 'film-finder scrape' first.".to_string()]);
}

#[test]
fn search_and_ov_listings() {
    let rows = vec![result("Dune", 1766852100, true), result("Heat", 1766952000, true)];
    assert_eq!(cmd_search("", false, &rows, 0), vec!["Usage: film-finder search <movie title> [--ov]".to_string()]);
    let found = cmd_search("heat", true, &rows, 0);
    assert_eq!(found[0], "Searching for: heat (OV only)\n");
    assert_eq!(found.len(), 3);
    let ov = cmd_ov(&rows, 0);
    assert_eq!(ov, vec![
        "=== OV/OmU Screenings (Original Version / English) ===\n".to_string(),
        "--- Saturday, December 27 ---".to_string(),
        "  17:15 - Dune (166min) [OV, 3D, IMAX] @ UCI Eastgate".to_string(),
        String::new(),
        "--- Sunday, December 28 ---".to_string(),
        "  21:00 - Heat (166min) [OV, 3D, IMAX] @ UCI Eastgate".to_string(),
        "\n2 OV/OmU screenings found".to_string(),
    ]);
    assert_eq!(cmd_ov(&vec![], 0), vec!["No OV/OmU screenings found. Run 'film-finder scrape' first.".to_string()]);
}

#[test]
fn films_listing() {
    let m = MovieInfo {
        title: "Dune: Teil Zwei".to_string(),
        original_title: Some("Dune: Part Two".to_string()),
        year: Some(2024),
        genres: Some("Science Fiction".to_string()),
        overview: None,
        poster_url: None,
        tmdb_url: Some("https://www.themoviedb.org/movie/693134".to_string()),
        runtime_minutes: Some(166),
        screening_count: 12,
        ov_count: 3,
    };
    assert_eq!(cmd_films(&vec![m]), vec![
        "=== Films Currently Showing ===\n".to_string(),
        "Dune: Part Two (2024) - 166min - 12 screenings [3 OV]".to_string(),
        "  Genres: Science Fiction".to_string(),
        "  TMDB: https://www.themoviedb.org/movie/693134".to_string(),
        String::new(),
        "1 films total".to_string(),
    ]);
    assert_eq!(cmd_films(&vec![]), vec!["No films found. Run 'film-finder scrape' first.".to_string()]);
}

#[test]
fn stored_showtimes_are_read_or_replaced_by_now() {
    assert_eq!(read_showtime("2025-12-27T16:15:00+00:00", 5), 1766852100);
    assert_eq!(read_showtime("2025-12-27T17:15:00+01:00", 5), 1766852100);
    assert_eq!(read_showtime("yesterday", 5), 5);
    let s = screening_data_from_row("Kino in der KulturBrauerei".to_string(), None, "bad", true, false, false, false, None, None, 9);
    assert_eq!(s.normalized_theater_name, "cinestar kulturbrauerei");
    assert_eq!(s.showtime, 9);
}

#[test]
fn normalized_names_keep_their_spacing() {
    for name in ["  Odeon   Kino  ", "Kino\tIntimes\n", "UCI Kinowelt  Berlin\u{a0}- East Side Gallery", "Filmkunst\r\n66", ""] {
        let n = normalize_theater_name(name);
        assert_eq!(n.split_whitespace().collect::<Vec<_>>().join(" "), n);
    }
}

#[test]
fn every_page_has_the_elements_the_script_looks_up() {
    let js = generate_js();
    let empty: Vec<MovieData> = Vec::new();
    let none: Vec<TheaterInfo> = Vec::new();
    let pages = vec![
        generate_html(&empty, &none, 0, 0),
        generate_html(&vec![movie(7, vec![screening("Babylon", 1766852100)])], &group_theaters(&vec![RawTheater { id: 3, name: "Babylon".to_string(), url: None }]), 3, 1766852100),
    ];
    for id in ["filter-today", "filter-tomorrow", "select-all", "select-none", "show-all-ov", "search"] {
        assert!(js.contains(&format!("getElementById('{}')", id)));
        for page in &pages {
            assert!(page.contains(&format!("id=\"{}\"", id)));
        }
    }
}

#[test]
fn escaped_json_decodes_back() {
    for s in ["", "plain", "say \"hi\"\\", "line\nfeed\rreturn\ttab", "é – ü ☃ 𝄞", "\\n is not a newline", "/ slash \u{7f}"] {
        let e = escape_json(s);
        let back: String = serde_json::from_str(&format!("\"{}\"", e)).unwrap();
        assert_eq!(back, s);
    }
}

#[test]
fn normalized_names_ignore_ascii_case() {
    for name in ["Kino in der KulturBrauerei", "UCI Kinowelt Berlin - East Side Gallery | Luxe", "  Delphi   Filmpalast am Zoo ", "Passage Kinos Neukölln", "Yorck Kinos", "ΣΟΦΙΑ Kino"] {
        let n = normalize_theater_name(name);
        assert_eq!(normalize_theater_name(&name.to_ascii_uppercase()), n);
        assert_eq!(normalize_theater_name(&name.to_ascii_lowercase()), n);
    }
}
