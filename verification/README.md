# film_finder

Finds original-version (OV, OmU, OmeU) movie screenings in Berlin: it reads
the program pages of UCI, CineStar, Yorck and critic.de, enriches the movies
with TMDB metadata, keeps them in SQLite and publishes a static site.

The library under `src/` is verified with Verus. Its contracts are stated
over mathematical views (`Seq`, `Option`, integers) of its types:

- `scrapers/` — reading program pages and API answers into theaters, movies
  and screenings (`uci`, `critic`, `cinestar`, `yorck`).
- `html`, `pattern`, `clock` — the calls into `scraper`, `regex`, `chrono`
  and `chrono-tz`, each with the contract the library relies on.
- `theaters`, `static_site`, `site_page`, `showtimes`, `page_text`, `assets` —
  theater grouping, escaping and the generated site.
- `tmdb` — request URLs and the assembly of TMDB metadata.
- `commands`, `settings` — what the command-line commands print and write.
- `text`, `models` — character-sequence primitives and shared data types.

`app/` is the command-line program around the library: HTTP, SQLite, files,
processes and JSON decoding. `tests/` runs the library on concrete inputs.
