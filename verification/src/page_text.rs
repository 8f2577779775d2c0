//! The fixed text of the generated page, cut where values are inserted.
use vstd::prelude::*;

verus! {

pub const LD_ITEM_0: &'static str = r#"
        {
          "@type": "ListItem",
          "position": "#;
pub const LD_ITEM_1: &'static str = r#",
          "item": {
            "@type": "Movie",
            "name": ""#;
pub const LD_ITEM_2: &'static str = r#"",
            "url": "https://ovberlin.com/#movie-"#;
pub const LD_ITEM_3: &'static str = r#"""#;
pub const LD_DIRECTOR_0: &'static str = r#",
            "director": { "@type": "Person", "name": ""#;
pub const LD_DIRECTOR_1: &'static str = r#"" }"#;
pub const LD_YEAR_0: &'static str = r#",
            "dateCreated": ""#;
pub const LD_YEAR_1: &'static str = r#"""#;
pub const LD_DESCRIPTION_0: &'static str = r#",
            "description": ""#;
pub const LD_DESCRIPTION_1: &'static str = r#"""#;
pub const LD_IMAGE_0: &'static str = r#",
            "image": ""#;
pub const LD_IMAGE_1: &'static str = r#"""#;
pub const LD_ITEM_CLOSE: &'static str = r#"
          }
        }"#;
pub const LD_SCRIPT_0: &'static str = r#"<script type="application/ld+json">
    {
      "@context": "https://schema.org",
      "@graph": [
        {
          "@type": "WebSite",
          "name": "OV Berlin",
          "url": "https://ovberlin.com/",
          "description": "Find original version (OV) and subtitled (OmU) movie screenings in Berlin"
        },
        {
          "@type": "ItemList",
          "name": "OV Movies Showing in Berlin",
          "numberOfItems": "#;
pub const LD_SCRIPT_1: &'static str = r#",
          "itemListElement": ["#;
pub const LD_SCRIPT_2: &'static str = r#"
          ]
        }
      ]
    }
    </script>"#;
pub const HEAD_0: &'static str = r#"<!DOCTYPE html>
<html lang="en">
<head>
    <meta charset="UTF-8">
    <meta name="viewport" content="width=device-width, initial-scale=1.0">
    <title>OV Berlin – Original Version Movies &amp; Showtimes</title>
    <meta name="description" content=""#;
pub const HEAD_1: &'static str = r#"">
    <link rel="canonical" href="https://ovberlin.com/">
    <meta property="og:type" content="website">
    <meta property="og:url" content="https://ovberlin.com/">
    <meta property="og:title" content="OV Berlin – Original Version Movies &amp; Showtimes">
    <meta property="og:description" content=""#;
pub const HEAD_2: &'static str = r#"">
    <meta property="og:locale" content="en_US">
    <meta property="og:site_name" content="OV Berlin">
    <meta name="twitter:card" content="summary">
    <meta name="twitter:title" content="OV Berlin – Original Version Movies &amp; Showtimes">
    <meta name="twitter:description" content=""#;
pub const HEAD_3: &'static str = r#"">
    <link rel="stylesheet" href="style.css?v="#;
pub const HEAD_4: &'static str = r#"">
    <link rel="preconnect" href="https://fonts.googleapis.com">
    <link rel="preconnect" href="https://fonts.gstatic.com" crossorigin>
    <link href="https://fonts.googleapis.com/css2?family=Inter:wght@400;500;600&display=swap" rel="stylesheet">
    "#;
pub const HEAD_5: &'static str = r#"
</head>
<body>
    <header class="site-header">
        <h1>OV Berlin</h1>
        <p class="tagline">Original version movie screenings in Berlin</p>
    </header>"#;
pub const NAV_OPEN_0: &'static str = r#"
    <nav class="theater-filter">
        <details>
            <summary>Filter by Theater</summary>
            <fieldset>
                <legend>Select theaters to show</legend>
                <button type="button" "#;
pub const ID_SELECT_ALL: &'static str = r#"id="select-all""#;
pub const NAV_OPEN_1: &'static str = r#">Select All</button>
                <button type="button" "#;
pub const ID_SELECT_NONE: &'static str = r#"id="select-none""#;
pub const NAV_OPEN_2: &'static str = r#">Clear All</button>
                <ul class="theater-list">
"#;
pub const CHAIN_OPEN_0: &'static str = r#"                    <li class="theater-group">
                        <strong>"#;
pub const CHAIN_OPEN_1: &'static str = r#"</strong>
                        <ul>
"#;
pub const THEATER_ITEM_0: &'static str = r#"                            <li>
                                <label>
                                    <input type="checkbox" name="theater" value=""#;
pub const THEATER_ITEM_1: &'static str = r#"" data-name=""#;
pub const THEATER_ITEM_2: &'static str = r#"" checked>
                                    "#;
pub const THEATER_ITEM_3: &'static str = r#"
                                </label>
                            </li>
"#;
pub const CHAIN_CLOSE: &'static str = r#"                        </ul>
                    </li>
"#;
pub const NAV_CLOSE_0: &'static str = r#"                </ul>
            </fieldset>
        </details>
        <div class="filter-controls">
            <div class="search-box">
                <input type="search" "#;
pub const ID_SEARCH: &'static str = r#"id="search""#;
pub const NAV_CLOSE_1: &'static str = r#" placeholder="Search movies, directors, writers..." autocomplete="off">
            </div>
            <fieldset class="date-filter">
                <legend>Filter by date</legend>
                <label>
                    <input type="checkbox" "#;
pub const ID_FILTER_TODAY: &'static str = r#"id="filter-today""#;
pub const NAV_CLOSE_2: &'static str = r#" name="date-filter" value="today">
                    Today
                </label>
                <label>
                    <input type="checkbox" "#;
pub const ID_FILTER_TOMORROW: &'static str = r#"id="filter-tomorrow""#;
pub const NAV_CLOSE_3: &'static str = r#" name="date-filter" value="tomorrow">
                    Tomorrow
                </label>
            </fieldset>
            <label class="show-all-toggle">
                <input type="checkbox" "#;
pub const ID_SHOW_ALL_OV: &'static str = r#"id="show-all-ov""#;
pub const NAV_CLOSE_4: &'static str = r#">
                Show all OV films (including non-English)
            </label>
        </div>
    </nav>

    <main class="movie-grid">
"#;
pub const POSTER_IMG_0: &'static str = r#"<img src=""#;
pub const POSTER_IMG_1: &'static str = r#"" alt=""#;
pub const POSTER_IMG_2: &'static str = r#"" loading="lazy">"#;
pub const POSTER_SNEAK: &'static str = r#"<span class="no-poster sneak-preview"><svg viewBox="0 0 100 100" fill="currentColor"><circle cx="50" cy="35" r="20" fill="none" stroke="currentColor" stroke-width="4"/><path d="M30 35 Q30 55 50 55 Q70 55 70 35" fill="none" stroke="currentColor" stroke-width="4"/><circle cx="50" cy="35" r="8"/><text x="50" y="80" text-anchor="middle" font-size="12" font-weight="bold">SNEAK</text><text x="50" y="93" text-anchor="middle" font-size="10">PREVIEW</text></svg></span>"#;
pub const POSTER_FESTIVAL: &'static str = r#"<span class="no-poster film-festival"><svg viewBox="0 0 100 100" fill="currentColor"><rect x="35" y="15" width="30" height="45" rx="3" fill="none" stroke="currentColor" stroke-width="3"/><circle cx="42" cy="25" r="4"/><circle cx="42" cy="35" r="4"/><circle cx="42" cy="45" r="4"/><circle cx="58" cy="25" r="4"/><circle cx="58" cy="35" r="4"/><circle cx="58" cy="45" r="4"/><path d="M25 60 L50 75 L75 60" fill="none" stroke="currentColor" stroke-width="3"/><text x="50" y="90" text-anchor="middle" font-size="10" font-weight="bold">FILM FESTIVAL</text></svg></span>"#;
pub const POSTER_INITIAL_0: &'static str = r#"<span class="no-poster">"#;
pub const POSTER_INITIAL_1: &'static str = r#"</span>"#;
pub const CARD_OPEN_0: &'static str = r#"        <article class="movie-card" id="movie-"#;
pub const CARD_OPEN_1: &'static str = r#"" data-movie-id=""#;
pub const CARD_OPEN_2: &'static str = r#"" data-theaters=""#;
pub const CARD_OPEN_3: &'static str = r#"" data-english=""#;
pub const CARD_OPEN_4: &'static str = r#"" data-search=""#;
pub const CARD_OPEN_5: &'static str = r#"" data-dates=""#;
pub const CARD_OPEN_6: &'static str = r#"">
            <figure class="movie-poster">
                "#;
pub const CARD_OPEN_7: &'static str = r#"
            </figure>
            <header class="movie-header">
                <h2 class="movie-title-row">"#;
pub const CARD_OPEN_10: &'static str = r#"</h2>
"#;
pub const ORIGINAL_TITLE_0: &'static str = r#"                <p class="original-title">Original: "#;
pub const ORIGINAL_TITLE_1: &'static str = r#"</p>
"#;
pub const GERMAN_TITLE_0: &'static str = r#"                <p class="german-title">German: "#;
pub const GERMAN_TITLE_1: &'static str = r#"</p>
"#;
pub const LANG_OPEN: &'static str = r#"                <p class="language-country">"#;
pub const LANG_NAME_0: &'static str = r#"<span class="original-lang">"#;
pub const LANG_NAME_1: &'static str = r#"</span>"#;
pub const LANG_SEPARATOR: &'static str = r#"<span class="separator"> · </span>"#;
pub const LANG_COUNTRIES_0: &'static str = r#"<span class="countries">"#;
pub const LANG_COUNTRIES_1: &'static str = r#"</span>"#;
pub const META_OPEN: &'static str = r#"                <p class="movie-meta">"#;
pub const META_GENRES_0: &'static str = r#"<span class="genres">"#;
pub const META_GENRES_1: &'static str = r#"</span>"#;
pub const META_RUNTIME_0: &'static str = r#"<span class="runtime">"#;
pub const META_RUNTIME_1: &'static str = r#"</span>"#;
pub const CREW_OPEN: &'static str = r#"            <dl class="movie-crew">"#;
pub const PERSON_LINK_0: &'static str = r#"<a href="https://www.themoviedb.org/person/"#;
pub const PERSON_LINK_1: &'static str = r#"" target="_blank" rel="noopener">"#;
pub const PERSON_LINK_2: &'static str = r#"</a>"#;
pub const CREW_DIRECTOR_0: &'static str = r#"<dt>Director</dt><dd>"#;
pub const CREW_DIRECTOR_1: &'static str = r#"</dd>"#;
pub const CREW_WRITER_0: &'static str = r#"<dt>Writer</dt><dd>"#;
pub const CREW_WRITER_1: &'static str = r#"</dd>"#;
pub const CREW_CINEMATOGRAPHY_0: &'static str = r#"<dt>Cinematography</dt><dd>"#;
pub const CREW_CINEMATOGRAPHY_1: &'static str = r#"</dd>"#;
pub const OVERVIEW_0: &'static str = r#"            <p class="movie-overview">"#;
pub const OVERVIEW_1: &'static str = r#"</p>
"#;
pub const SCREENINGS_OPEN: &'static str = r#"            <section class="movie-screenings" hidden>
                <h3>Showtimes</h3>
"#;
pub const DAY_OPEN_0: &'static str = r#"                <div class="screening-day" data-date=""#;
pub const DAY_OPEN_1: &'static str = r#"">
                    <h4>"#;
pub const DAY_OPEN_2: &'static str = r#"</h4>
                    <ul class="screening-times">
"#;
pub const BOOK_LINK_0: &'static str = r#" <a href=""#;
pub const BOOK_LINK_1: &'static str = r#"" target="_blank" rel="noopener">Book</a>"#;
pub const THEATER_LINK_0: &'static str = r#"<a href=""#;
pub const THEATER_LINK_1: &'static str = r#"" target="_blank" rel="noopener">"#;
pub const THEATER_LINK_2: &'static str = r#"</a>"#;
pub const SCREENING_ITEM_0: &'static str = r#"                        <li class="screening" data-theater=""#;
pub const SCREENING_ITEM_1: &'static str = r#"">
                            <time datetime=""#;
pub const SCREENING_ITEM_2: &'static str = r#"">"#;
pub const SCREENING_ITEM_3: &'static str = r#"</time>
                            <span class="theater-name">"#;
pub const SCREENING_ITEM_4: &'static str = r#"</span>
                            <span class="screening-tags">"#;
pub const SCREENING_ITEM_5: &'static str = r#"</span>"#;
pub const SCREENING_ITEM_6: &'static str = r#"
                        </li>
"#;
pub const DAY_CLOSE: &'static str = r#"                    </ul>
                </div>
"#;
pub const CARD_CLOSE: &'static str = r#"            </section>
        </article>
"#;
pub const FOOTER_0: &'static str = r#"    </main>

    <footer class="site-footer">
        <p>Developed for Film Lovers by the filmmakers at: <a href="https://secedastudios.com" target="_blank" rel="noopener">Seceda Studios</a><br/>
            If you are also a filmmaker/actor/creator/crew please join us on our 100% Free/Ad Free Directory: <a href="https://slatehub.com" target="_blank" rel="noopener">SlateHub</a></p>
        <p class="last-updated">Last updated: "#;
pub const FOOTER_1: &'static str = r#"</p>
    </footer>

    <script src="app.js?v="#;
pub const FOOTER_2: &'static str = r#""></script>
    <script src='https://storage.ko-fi.com/cdn/scripts/overlay-widget.js'></script>
    <script>
      kofiWidgetOverlay.draw('chrisabruce', {
        'type': 'floating-chat',
        'floating-chat.donateButton.text': 'Support Me',
        'floating-chat.donateButton.background-color': '#ff38b8',
        'floating-chat.donateButton.text-color': '#fff'
      });
    </script>
</body>
</html>
"#;
pub const TMDB_LINK_0: &'static str = r#"<a href=""#;
pub const TMDB_LINK_1: &'static str = r#"" target="_blank" rel="noopener" class="tmdb-link" title="View on TMDB"><svg class="external-icon" viewBox="0 0 24 24" fill="none" stroke="currentColor" stroke-width="2"><path d="M18 13v6a2 2 0 0 1-2 2H5a2 2 0 0 1-2-2V8a2 2 0 0 1 2-2h6"/><polyline points="15 3 21 3 21 9"/><line x1="10" y1="14" x2="21" y2="3"/></svg></a>"#;

pub const SITEMAP_HOME_0: &'static str = r#"<?xml version="1.0" encoding="UTF-8"?>
<urlset xmlns="http://www.sitemaps.org/schemas/sitemap/0.9">
  <url>
    <loc>https://ovberlin.com/</loc>
    <lastmod>"#;
pub const SITEMAP_HOME_1: &'static str = r#"</lastmod>
    <changefreq>daily</changefreq>
    <priority>1.0</priority>
  </url>
"#;
pub const SITEMAP_MOVIE_0: &'static str = r#"  <url>
    <loc>https://ovberlin.com/#movie-"#;
pub const SITEMAP_MOVIE_1: &'static str = r#"</loc>
    <lastmod>"#;
pub const SITEMAP_MOVIE_2: &'static str = r#"</lastmod>
    <changefreq>daily</changefreq>
    <priority>0.8</priority>
  </url>
"#;
pub const SITEMAP_CLOSE: &'static str = "</urlset>\n";

} // verus!
