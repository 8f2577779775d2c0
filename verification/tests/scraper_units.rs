use film_finder::clock::{CivilDate, TimeOfDay};
use film_finder::scrapers::critic::{parse_time, parse_title_language};
use film_finder::scrapers::uci::{
    detect_screening_type, extract_city, is_section_ov_default, parse_date_compact, parse_meta,
    parse_time_attr, theater_name_to_slug,
};

#[test]
fn test_parse_title_language() {
    let (title, is_ov, is_omu, is_english_subs) = parse_title_language("L'Étranger (OV w/ sub)");
    assert_eq!(title, "L'Étranger");
    assert!(!is_ov);
    assert!(is_omu);
    assert!(!is_english_subs);

    let (title, is_ov, is_omu, is_english_subs) = parse_title_language("Hook (OF)");
    assert_eq!(title, "Hook");
    assert!(is_ov);
    assert!(!is_omu);
    assert!(!is_english_subs);

    let (title, is_ov, is_omu, is_english_subs) = parse_title_language("Some Movie (OmeU)");
    assert_eq!(title, "Some Movie");
    assert!(!is_ov);
    assert!(!is_omu);
    assert!(is_english_subs);
}

#[test]
fn test_parse_time() {
    assert_eq!(parse_time("15:00"), Some(TimeOfDay { hour: 15, minute: 0, second: 0 }));
    assert_eq!(parse_time("9:30"), Some(TimeOfDay { hour: 9, minute: 30, second: 0 }));
    assert_eq!(parse_time("15.00"), Some(TimeOfDay { hour: 15, minute: 0, second: 0 }));
}

#[test]
fn test_theater_name_to_slug() {
    assert_eq!(
        theater_name_to_slug("UCI Berlin - East Side Gallery | Luxe"),
        "berlin-east-side-gallery-luxe"
    );
}

#[test]
fn test_parse_date_compact() {
    let date = parse_date_compact("20251227").unwrap();
    assert_eq!(date.year(), 2025);
    assert_eq!(date.month(), 12);
    assert_eq!(date.day(), 27);
}

#[test]
fn test_parse_time_attr() {
    let time = parse_time_attr("'17:15'").unwrap();
    assert_eq!(time.hour(), 17);
    assert_eq!(time.minute(), 15);
}

#[test]
fn test_parse_meta() {
    let (runtime, rating) = parse_meta("3. Spielwoche 193min FSK 12 Action");
    assert_eq!(runtime, Some(193));
    assert_eq!(rating, Some("FSK 12".to_string()));
}

#[test]
fn parse_title_language_untagged_title_has_no_flags() {
    let (title, is_ov, is_omu, is_english_subs) = parse_title_language("  Alien  ");
    assert_eq!(title, "Alien");
    assert!(!is_ov && !is_omu && !is_english_subs);
}

#[test]
fn parse_title_language_english_subs_win_over_omu() {
    let (title, is_ov, is_omu, is_english_subs) = parse_title_language("Heat (OmengU) (3D)");
    assert_eq!(title, "Heat");
    assert!(!is_ov && !is_omu && is_english_subs);
}

#[test]
fn parse_time_rejects_garbage_and_trims() {
    assert_eq!(parse_time("  20.15 "), Some(TimeOfDay { hour: 20, minute: 15, second: 0 }));
    assert_eq!(parse_time("25:00"), None);
    assert_eq!(parse_time("abc"), None);
}

#[test]
fn parse_date_compact_rejects_bad_input() {
    assert_eq!(parse_date_compact("2025122"), None);
    assert_eq!(parse_date_compact("20250230"), None);
    assert_eq!(parse_date_compact("2025ab27"), None);
    assert_eq!(parse_date_compact("ab€cdefg"), None);
    assert_eq!(parse_date_compact("20240229"), Some(CivilDate { year: 2024, month: 2, day: 29 }));
}

#[test]
fn parse_time_attr_strips_both_quote_kinds() {
    assert_eq!(parse_time_attr("\"'09:05'\""), Some(TimeOfDay { hour: 9, minute: 5, second: 0 }));
    assert_eq!(parse_time_attr("'9h05'"), None);
}

#[test]
fn parse_meta_without_matches() {
    assert_eq!(parse_meta("Drama"), (None, None));
    assert_eq!(parse_meta("FSK16 90 min"), (Some(90), Some("FSK 16".to_string())));
    assert_eq!(parse_meta("99999999999min"), (None, None));
}

#[test]
fn extract_city_prefers_berlin() {
    assert_eq!(extract_city("UCI Potsdam | Luxe"), Some("Potsdam".to_string()));
    assert_eq!(extract_city("Berlin Potsdam"), Some("Berlin".to_string()));
    assert_eq!(extract_city("Hamburg"), None);
}

#[test]
fn detect_screening_type_lists_formats_in_order() {
    assert_eq!(
        detect_screening_type("badge attribute-dolby attribute-imax"),
        Some("IMAX, Dolby".to_string())
    );
    assert_eq!(detect_screening_type("badge attribute-ov"), None);
}

#[test]
fn section_ov_default_needs_legend_and_no_badge_class() {
    assert!(is_section_ov_default("<li data-attribute-id=\"ov\">OV</li>"));
    assert!(!is_section_ov_default("<li data-attribute-id=\"ov\"></li><a class=\"attribute-ov\">"));
    assert!(!is_section_ov_default("<div></div>"));
}
