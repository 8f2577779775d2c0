//! UCI Kinowelt: theater slugs and cities, and the film blocks and showtime
//! badges of a theater's program page.
use crate::clock::{berlin_instant, berlin_to_utc, checked_date, parse_time_with, parsed_time, time_parts, valid_date, CivilDate, TimeOfDay};
use crate::html::{attr_at, attr_at_exec, opts_view, select_attr, select_attr_in, select_html, select_text_in, selected_attr, selected_attr_in, selected_html, selected_text_in, strings_view};
use crate::models::{opt_view, Movie, MovieV, MovieWithScreenings, MovieWithScreeningsV, Screening, ScreeningV, Theater};
use crate::pattern::{capture_group, regex_group};
use crate::site_page::list_contains;
use crate::text::{chars_of, contains, contains_str, join, lowercase, lowercase_chars, parse_i32, parse_i32_spec, parse_u32, parse_u32_spec, push_chars, replace_all, replace_in, string_of, trim, trim_chars};
use vstd::prelude::*;
use vstd::string::StringExecFns;

verus! {

/// The URL slug of a theater name: lowercased, "uci " dropped, " - " and
/// " | " and then single spaces turned into hyphens.
pub open spec fn slug_of(name: Seq<char>) -> Seq<char> {
    let s = replace_all(lowercase(name), "uci "@, ""@);
    let s = replace_all(s, " - "@, "-"@);
    let s = replace_all(s, " | "@, "-"@);
    replace_all(s, " "@, "-"@)
}

/// Converts theater name to URL slug.
pub fn theater_name_to_slug(name: &str) -> (r: String)
    ensures
        r@ == slug_of(name@),
{
    let v = chars_of(name);
    let l = lowercase_chars(&v);
    let s = replace_in(&l, "uci ", "");
    let s = replace_in(&s, " - ", "-");
    let s = replace_in(&s, " | ", "-");
    let s = replace_in(&s, " ", "-");
    string_of(&s)
}

/// Extracts city from theater name: "Berlin" when the name mentions it,
/// otherwise "Potsdam" when the name mentions that, otherwise none.
pub fn extract_city(name: &str) -> (r: Option<String>)
    ensures
        match r {
            Some(c) => (contains(name@, "Berlin"@) && c@ == "Berlin"@) || (!contains(
                name@,
                "Berlin"@,
            ) && contains(name@, "Potsdam"@) && c@ == "Potsdam"@),
            None => !contains(name@, "Berlin"@) && !contains(name@, "Potsdam"@),
        },
{
    let v = chars_of(name);
    if contains_str(&v, "Berlin") {
        Some(String::from_str("Berlin"))
    } else if contains_str(&v, "Potsdam") {
        Some(String::from_str("Potsdam"))
    } else {
        None
    }
}

/// The film section's legend declares OV while no badge carries the OV
/// attribute class: then every performance in the section is OV.
pub open spec fn section_ov_default(film_html: Seq<char>) -> bool {
    contains(film_html, "data-attribute-id=\"ov\""@) && !contains(film_html, "attribute-ov"@)
}

/// Returns true if the film section legend lists OV but individual badges
/// don't carry attribute-ov (i.e. all screenings in this section are OV).
pub fn is_section_ov_default(film_html: &str) -> (b: bool)
    ensures
        b == section_ov_default(film_html@),
{
    let v = chars_of(film_html);
    contains_str(&v, "data-attribute-id=\"ov\"") && !contains_str(&v, "attribute-ov")
}

/// The premium formats named by a badge's classes, in a fixed order.
pub open spec fn formats_in(class_attr: Seq<char>) -> Seq<Seq<char>> {
    let a = if contains(class_attr, "attribute-isense"@) {
        seq!["iSense"@]
    } else {
        Seq::empty()
    };
    let b = if contains(class_attr, "attribute-imax"@) {
        a.push("IMAX"@)
    } else {
        a
    };
    let c = if contains(class_attr, "attribute-screenx"@) {
        b.push("ScreenX"@)
    } else {
        b
    };
    if contains(class_attr, "attribute-dolby"@) {
        c.push("Dolby"@)
    } else {
        c
    }
}

fn push_format(out: &mut String, count: &mut usize, name: &str, Ghost(parts): Ghost<Seq<Seq<char>>>)
    requires
        old(out)@ == join(parts, ", "@),
        *old(count) == parts.len(),
        parts.len() < 4,
    ensures
        final(out)@ == join(parts.push(name@), ", "@),
        *final(count) == parts.len() + 1,
{
    assert(parts.push(name@).drop_last() =~= parts);
    if *count > 0 {
        out.append(", ");
    }
    out.append(name);
    *count = *count + 1;
    proof {
        if parts.len() == 0 {
            assert(old(out)@ =~= Seq::<char>::empty());
            assert(out@ =~= name@);
        }
    }
}

/// Detects screening type from class attributes: the premium formats the
/// classes name, joined by ", ", or none when there are none.
pub fn detect_screening_type(class_attr: &str) -> (r: Option<String>)
    ensures
        match r {
            Some(s) => formats_in(class_attr@).len() > 0 && s@ == join(
                formats_in(class_attr@),
                ", "@,
            ),
            None => formats_in(class_attr@).len() == 0,
        },
{
    let v = chars_of(class_attr);
    let mut out = String::new();
    let mut count: usize = 0;
    let ghost mut parts: Seq<Seq<char>> = Seq::empty();
    if contains_str(&v, "attribute-isense") {
        push_format(&mut out, &mut count, "iSense", Ghost(parts));
        proof {
            parts = parts.push("iSense"@);
        }
    }
    if contains_str(&v, "attribute-imax") {
        push_format(&mut out, &mut count, "IMAX", Ghost(parts));
        proof {
            parts = parts.push("IMAX"@);
        }
    }
    if contains_str(&v, "attribute-screenx") {
        push_format(&mut out, &mut count, "ScreenX", Ghost(parts));
        proof {
            parts = parts.push("ScreenX"@);
        }
    }
    if contains_str(&v, "attribute-dolby") {
        push_format(&mut out, &mut count, "Dolby", Ghost(parts));
        proof {
            parts = parts.push("Dolby"@);
        }
    }
    assert(parts =~= formats_in(class_attr@));
    if count == 0 {
        None
    } else {
        Some(out)
    }
}

// ---------------------------------------------------------------------
// Small parsers
// ---------------------------------------------------------------------

/// The runtime ("193min") and FSK rating ("FSK 12") found in a film's
/// info text.
pub open spec fn meta_of(text: Seq<char>) -> (Option<i32>, Option<Seq<char>>) {
    (
        match regex_group(r"(\d+)\s*min"@, text, 1) {
            Some(g) => parse_i32_spec(g),
            None => None,
        },
        match regex_group(r"FSK\s*(\d+)"@, text, 1) {
            Some(g) => Some("FSK "@ + g),
            None => None,
        },
    )
}

/// Parses runtime and rating from info text.
pub fn parse_meta(text: &str) -> (r: (Option<i32>, Option<String>))
    ensures
        (r.0, opt_view(r.1)) == meta_of(text@),
{
    let runtime = match capture_group(r"(\d+)\s*min", text, 1) {
        Some(g) => parse_i32(&chars_of(g.as_str())),
        None => None,
    };
    let rating = match capture_group(r"FSK\s*(\d+)", text, 1) {
        Some(g) => {
            let mut v = chars_of("FSK ");
            push_chars(&mut v, &chars_of(g.as_str()));
            Some(string_of(&v))
        },
        None => None,
    };
    (runtime, rating)
}

pub open spec fn is_ascii_text(s: Seq<char>) -> bool {
    forall|i: int| 0 <= i < s.len() ==> #[trigger] s[i] < '\u{80}'
}

/// A date written as eight ASCII characters `YYYYMMDD`, when the pieces
/// are numbers that make a calendar date.
pub open spec fn compact_date(s: Seq<char>) -> Option<CivilDate> {
    if s.len() == 8 && is_ascii_text(s) {
        match (parse_i32_spec(s.take(4)), parse_u32_spec(s.subrange(4, 6)), parse_u32_spec(s.skip(6))) {
            (Some(y), Some(m), Some(d)) => if valid_date(y as int, m as int, d as int) {
                Some(CivilDate { year: y, month: m, day: d })
            } else {
                None
            },
            _ => None,
        }
    } else {
        None
    }
}

fn slice_chars(v: &Vec<char>, from: usize, to: usize) -> (r: Vec<char>)
    requires
        from <= to <= v.len(),
    ensures
        r@ == v@.subrange(from as int, to as int),
{
    let mut r: Vec<char> = Vec::new();
    let mut i = from;
    while i < to
        invariant
            from <= i <= to <= v.len(),
            r@ == v@.subrange(from as int, i as int),
        decreases to - i,
    {
        r.push(v[i]);
        assert(v@.subrange(from as int, i + 1) =~= v@.subrange(from as int, i as int).push(v@[i as int]));
        i = i + 1;
    }
    r
}

/// Parses compact date format "20251227"; texts with characters outside
/// ASCII give `None`.
pub fn parse_date_compact(text: &str) -> (r: Option<CivilDate>)
    ensures
        r == compact_date(text@),
        r matches Some(d) ==> d.wf(),
{
    let v = chars_of(text);
    if v.len() != 8 {
        return None;
    }
    let mut i: usize = 0;
    while i < 8
        invariant
            i <= 8,
            v.len() == 8,
            v@ == text@,
            forall|j: int| 0 <= j < i ==> #[trigger] v@[j] < '\u{80}',
        decreases 8 - i,
    {
        if v[i] >= '\u{80}' {
            assert(!(v@[i as int] < '\u{80}'));
            assert(!is_ascii_text(text@));
            return None;
        }
        i = i + 1;
    }
    assert(is_ascii_text(v@));
    let y = slice_chars(&v, 0, 4);
    let m = slice_chars(&v, 4, 6);
    let d = slice_chars(&v, 6, 8);
    assert(y@ =~= v@.take(4));
    assert(d@ =~= v@.skip(6));
    match (parse_i32(&y), parse_u32(&m), parse_u32(&d)) {
        (Some(year), Some(month), Some(day)) => checked_date(year, month, day),
        _ => None,
    }
}

pub open spec fn is_quote(c: char) -> bool {
    c == '\'' || c == '"'
}

pub open spec fn strip_quotes_start(s: Seq<char>) -> Seq<char>
    decreases s.len(),
{
    if s.len() > 0 && is_quote(s[0]) {
        strip_quotes_start(s.drop_first())
    } else {
        s
    }
}

pub open spec fn strip_quotes_end(s: Seq<char>) -> Seq<char>
    decreases s.len(),
{
    if s.len() > 0 && is_quote(s.last()) {
        strip_quotes_end(s.drop_last())
    } else {
        s
    }
}

/// The text with single and double quotes removed from both ends.
pub open spec fn strip_quotes(s: Seq<char>) -> Seq<char> {
    strip_quotes_end(strip_quotes_start(s))
}

fn strip_quotes_exec(v: &Vec<char>) -> (r: Vec<char>)
    ensures
        r@ == strip_quotes(v@),
{
    let mut i: usize = 0;
    assert(v@.skip(0) =~= v@);
    while i < v.len() && (v[i] == '\'' || v[i] == '"')
        invariant
            i <= v.len(),
            strip_quotes_start(v@) == strip_quotes_start(v@.skip(i as int)),
        decreases v.len() - i,
    {
        assert(v@.skip(i as int).drop_first() =~= v@.skip(i + 1));
        i = i + 1;
    }
    let ghost t = v@.skip(i as int);
    assert(strip_quotes_start(v@) == t);
    let mut j: usize = v.len();
    while j > i && (v[j - 1] == '\'' || v[j - 1] == '"')
        invariant
            i <= j <= v.len(),
            t == v@.skip(i as int),
            strip_quotes_end(t) == strip_quotes_end(v@.subrange(i as int, j as int)),
        decreases j,
    {
        assert(v@.subrange(i as int, j as int).drop_last() =~= v@.subrange(i as int, j - 1));
        j = j - 1;
    }
    assert(v@.subrange(i as int, v.len() as int) =~= t);
    slice_chars(v, i, j)
}

/// Parses time from data-time attribute like "'17:15'".
pub fn parse_time_attr(text: &str) -> (r: Option<TimeOfDay>)
    ensures
        time_parts(r) == parsed_time(strip_quotes(text@), "%H:%M"@),
        r matches Some(t) ==> t.wf(),
{
    let cleaned = strip_quotes_exec(&chars_of(text));
    let s = string_of(&cleaned);
    parse_time_with(s.as_str(), "%H:%M")
}

// ---------------------------------------------------------------------
// The theater's program page
// ---------------------------------------------------------------------

pub const UCI_BASE: &'static str = "https://www.uci-kinowelt.de";
pub const FILM_CSS: &'static str = "div[data-film-container]";
pub const TITLE_CSS: &'static str = "h2.film-container__description__text__eventtitle a";
pub const INFO_CSS: &'static str = "ul.film-info.infolist";
pub const BADGE_CSS: &'static str = "a.badge-performance";

pub open spec fn first_of<T>(s: Seq<T>) -> Option<T> {
    if s.len() > 0 {
        Some(s[0])
    } else {
        None
    }
}

/// A showtime badge by its attributes: link, time, date and classes.
pub struct BadgeV {
    pub href: Option<Seq<char>>,
    pub time: Option<Seq<char>>,
    pub date: Option<Seq<char>>,
    pub class: Option<Seq<char>>,
}

/// The serialized HTML of the `k`-th film block of a page.
pub open spec fn film_html(html: Seq<char>, k: int) -> Seq<char> {
    selected_html(html, FILM_CSS@)[k]
}

/// The showtime badges inside the `k`-th film block, in document order.
pub open spec fn film_badges(html: Seq<char>, k: int) -> Seq<BadgeV> {
    let hrefs = selected_attr_in(html, FILM_CSS@, k, BADGE_CSS@, "href"@);
    let times = selected_attr_in(html, FILM_CSS@, k, BADGE_CSS@, "data-time"@);
    let dates = selected_attr_in(html, FILM_CSS@, k, BADGE_CSS@, "data-date"@);
    let classes = selected_attr_in(html, FILM_CSS@, k, BADGE_CSS@, "class"@);
    Seq::new(
        hrefs.len(),
        |b: int| BadgeV { href: hrefs[b], time: attr_at(times, b), date: attr_at(dates, b), class: attr_at(classes, b) },
    )
}

/// The time written on a badge.
pub open spec fn badge_time(time: Option<Seq<char>>) -> Option<(u32, u32, u32)> {
    match time {
        Some(t) => parsed_time(strip_quotes(t), "%H:%M"@),
        None => None,
    }
}

/// The date written on a badge, or `today` when it has none that parses.
pub open spec fn badge_date(date: Option<Seq<char>>, today: CivilDate) -> CivilDate {
    match date {
        Some(d) => match compact_date(d) {
            Some(x) => x,
            None => today,
        },
        None => today,
    }
}

pub open spec fn screening_type_of(class_attr: Seq<char>) -> Option<Seq<char>> {
    if formats_in(class_attr).len() > 0 {
        Some(join(formats_in(class_attr), ", "@))
    } else {
        None
    }
}

/// The screening a badge stands for, at Berlin time `t` on its date
/// (`now` where that local time is ambiguous or skipped).
pub open spec fn badge_screening(date_attr: Option<Seq<char>>, class: Option<Seq<char>>, url: Seq<char>, film: Seq<char>, t: (u32, u32, u32), now: i64, today: CivilDate) -> ScreeningV {
    let date = badge_date(date_attr, today);
    let class_attr = match class {
        Some(c) => c,
        None => Seq::empty(),
    };
    ScreeningV {
        showtime: match berlin_instant(date.year, date.month, date.day, t.0, t.1, t.2) {
            Some(x) => x,
            None => now,
        },
        screening_type: screening_type_of(class_attr),
        is_ov: contains(class_attr, "attribute-ov"@) || (contains(film, "data-attribute-id=\"ov\""@)
            && section_ov_default(film)),
        is_omu: contains(class_attr, "attribute-omu"@) && !contains(class_attr, "attribute-omeu"@)
            && !contains(class_attr, "attribute-omengu"@),
        is_english_subs: contains(class_attr, "attribute-omeu"@) || contains(class_attr, "attribute-omengu"@),
        is_3d: contains(class_attr, "attribute-3d"@),
        booking_url: Some(url),
    }
}

/// When a film section's legend declares OV and no badge carries the OV
/// class, every screening of that section is OV.
pub proof fn lemma_section_default_is_ov(date_attr: Option<Seq<char>>, class: Option<Seq<char>>, url: Seq<char>, film: Seq<char>, t: (u32, u32, u32), now: i64, today: CivilDate)
    requires
        section_ov_default(film),
    ensures
        badge_screening(date_attr, class, url, film, t, now, today).is_ov,
{
}

/// The language flags and booking link of a badge's screening follow its
/// classes: a badge marked OmU, and not OmeU or OmengU, gives an OmU
/// screening; one marked OmeU or OmengU gives English subtitles and never
/// OmU; one marked OV gives an OV screening; one marked 3D a 3D screening;
/// without those marks (and outside an OV section) the flags are off.  The
/// booking link is the one given.
pub proof fn lemma_badge_flags(date_attr: Option<Seq<char>>, c: Seq<char>, url: Seq<char>, film: Seq<char>, t: (u32, u32, u32), now: i64, today: CivilDate)
    ensures
        ({
            let x = badge_screening(date_attr, Some(c), url, film, t, now, today);
            &&& contains(c, "attribute-omu"@) && !contains(c, "attribute-omeu"@) && !contains(c, "attribute-omengu"@)
                ==> x.is_omu
            &&& (contains(c, "attribute-omeu"@) || contains(c, "attribute-omengu"@)) ==> x.is_english_subs && !x.is_omu
            &&& !contains(c, "attribute-omu"@) ==> !x.is_omu
            &&& !contains(c, "attribute-omeu"@) && !contains(c, "attribute-omengu"@) ==> !x.is_english_subs
            &&& contains(c, "attribute-ov"@) ==> x.is_ov
            &&& !contains(c, "attribute-ov"@) && !contains(film, "data-attribute-id=\"ov\""@) ==> !x.is_ov
            &&& x.is_3d == contains(c, "attribute-3d"@)
            &&& x.booking_url == Some(url)
        }),
{
}

/// One badge: skipped without a link or when its link was seen before;
/// otherwise its link is remembered, and its screening added when its
/// time parses.
pub open spec fn badge_step(st: (Seq<Seq<char>>, Seq<ScreeningV>), badge: BadgeV, film: Seq<char>, now: i64, today: CivilDate) -> (Seq<Seq<char>>, Seq<ScreeningV>) {
    match badge.href {
        None => st,
        Some(h) => {
            let url = UCI_BASE@ + h;
            if st.0.contains(url) {
                st
            } else {
                match badge_time(badge.time) {
                    None => (st.0.push(url), st.1),
                    Some(t) => (st.0.push(url), st.1.push(badge_screening(badge.date, badge.class, url, film, t, now, today))),
                }
            }
        },
    }
}

pub open spec fn badges_fold(st: (Seq<Seq<char>>, Seq<ScreeningV>), badges: Seq<BadgeV>, film: Seq<char>, now: i64, today: CivilDate) -> (Seq<Seq<char>>, Seq<ScreeningV>)
    decreases badges.len(),
{
    if badges.len() == 0 {
        st
    } else {
        badge_step(badges_fold(st, badges.drop_last(), film, now, today), badges.last(), film, now, today)
    }
}

/// The `k`-th film block: skipped without a title; kept when it has
/// screenings.
pub open spec fn film_step(st: (Seq<Seq<char>>, Seq<MovieWithScreeningsV>), html: Seq<char>, k: int, now: i64, today: CivilDate) -> (Seq<Seq<char>>, Seq<MovieWithScreeningsV>) {
    match first_of(selected_text_in(html, FILM_CSS@, k, TITLE_CSS@)) {
        None => st,
        Some(raw) => {
            let title = trim(raw);
            if title.len() == 0 {
                st
            } else {
                let meta = match first_of(selected_text_in(html, FILM_CSS@, k, INFO_CSS@)) {
                    Some(info) => meta_of(info),
                    None => (None, None),
                };
                let r = badges_fold((st.0, Seq::empty()), film_badges(html, k), film_html(html, k), now, today);
                if r.1.len() > 0 {
                    let movie = MovieV {
                        external_id: attr_at(selected_attr(html, FILM_CSS@, "data-film-id"@), k),
                        title: title,
                        runtime_minutes: meta.0,
                        rating: meta.1,
                    };
                    (r.0, st.1.push(MovieWithScreeningsV { movie: movie, screenings: r.1 }))
                } else {
                    (r.0, st.1)
                }
            }
        },
    }
}

/// The first `n` film blocks of a page, in document order.
pub open spec fn films_fold(st: (Seq<Seq<char>>, Seq<MovieWithScreeningsV>), html: Seq<char>, n: nat, now: i64, today: CivilDate) -> (Seq<Seq<char>>, Seq<MovieWithScreeningsV>)
    decreases n,
{
    if n == 0 {
        st
    } else {
        film_step(films_fold(st, html, (n - 1) as nat, now, today), html, n - 1, now, today)
    }
}

/// The movies of a program page, each with its screenings.
pub open spec fn theater_page(html: Seq<char>, now: i64, today: CivilDate) -> Seq<MovieWithScreeningsV> {
    films_fold((Seq::empty(), Seq::empty()), html, selected_html(html, FILM_CSS@).len(), now, today).1
}

/// All screenings of the movies, movie after movie.
pub open spec fn all_screenings(ms: Seq<MovieWithScreeningsV>) -> Seq<ScreeningV>
    decreases ms.len(),
{
    if ms.len() == 0 {
        Seq::empty()
    } else {
        all_screenings(ms.drop_last()) + ms.last().screenings
    }
}

/// Every screening has a booking link, remembered in `seen`, and no two
/// share one.
pub open spec fn links_unique(seen: Seq<Seq<char>>, xs: Seq<ScreeningV>) -> bool {
    &&& forall|i: int| 0 <= i < xs.len() ==> (#[trigger] xs[i]).booking_url is Some && seen.contains(xs[i].booking_url->0)
    &&& forall|i: int, j: int| 0 <= i < j < xs.len() ==> (#[trigger] xs[i]).booking_url != (#[trigger] xs[j]).booking_url
}

/// Every movie has a title and at least one screening.
pub open spec fn movies_nonempty(ms: Seq<MovieWithScreeningsV>) -> bool {
    forall|i: int| 0 <= i < ms.len() ==> (#[trigger] ms[i]).screenings.len() > 0 && ms[i].movie.title.len() > 0
}

proof fn lemma_badge_step_links(st: (Seq<Seq<char>>, Seq<ScreeningV>), prev: Seq<ScreeningV>, badge: BadgeV, film: Seq<char>, now: i64, today: CivilDate)
    requires
        links_unique(st.0, prev + st.1),
    ensures
        links_unique(badge_step(st, badge, film, now, today).0, prev + badge_step(st, badge, film, now, today).1),
        badge_step(st, badge, film, now, today).1.len() >= st.1.len(),
{
    let r = badge_step(st, badge, film, now, today);
    let xs = prev + st.1;
    if let Some(h) = badge.href {
        let url = UCI_BASE@ + h;
        if !st.0.contains(url) {
            let seen = st.0.push(url);
            assert forall|i: int| 0 <= i < xs.len() implies (#[trigger] xs[i]).booking_url is Some && seen.contains(xs[i].booking_url->0) by {
                let u = xs[i].booking_url->0;
                let k = choose|k: int| 0 <= k < st.0.len() && st.0[k] == u;
                assert(seen[k] == u);
            }
            if let Some(t) = badge_time(badge.time) {
                let x = badge_screening(badge.date, badge.class, url, film, t, now, today);
                let ys = prev + st.1.push(x);
                assert(ys =~= xs.push(x));
                assert(seen[st.0.len() as int] == url);
                assert forall|i: int| 0 <= i < ys.len() implies (#[trigger] ys[i]).booking_url is Some && seen.contains(ys[i].booking_url->0) by {
                    if i < xs.len() {
                        assert(ys[i] == xs[i]);
                    }
                }
                assert forall|i: int, j: int| 0 <= i < j < ys.len() implies (#[trigger] ys[i]).booking_url != (#[trigger] ys[j]).booking_url by {
                    if j < xs.len() {
                        assert(ys[i] == xs[i] && ys[j] == xs[j]);
                    } else {
                        assert(ys[i] == xs[i]);
                        assert(st.0.contains(xs[i].booking_url->0));
                    }
                }
            }
        }
    }
}

proof fn lemma_badges_links(st: (Seq<Seq<char>>, Seq<ScreeningV>), prev: Seq<ScreeningV>, badges: Seq<BadgeV>, film: Seq<char>, now: i64, today: CivilDate)
    requires
        links_unique(st.0, prev + st.1),
    ensures
        links_unique(badges_fold(st, badges, film, now, today).0, prev + badges_fold(st, badges, film, now, today).1),
    decreases badges.len(),
{
    if badges.len() > 0 {
        lemma_badges_links(st, prev, badges.drop_last(), film, now, today);
        lemma_badge_step_links(badges_fold(st, badges.drop_last(), film, now, today), prev, badges.last(), film, now, today);
    }
}

proof fn lemma_film_step_links(st: (Seq<Seq<char>>, Seq<MovieWithScreeningsV>), html: Seq<char>, k: int, now: i64, today: CivilDate)
    requires
        links_unique(st.0, all_screenings(st.1)),
        movies_nonempty(st.1),
    ensures
        links_unique(film_step(st, html, k, now, today).0, all_screenings(film_step(st, html, k, now, today).1)),
        movies_nonempty(film_step(st, html, k, now, today).1),
{
    if let Some(raw) = first_of(selected_text_in(html, FILM_CSS@, k, TITLE_CSS@)) {
        let title = trim(raw);
        if title.len() > 0 {
            let prev = all_screenings(st.1);
            assert(prev + Seq::<ScreeningV>::empty() =~= prev);
            lemma_badges_links((st.0, Seq::empty()), prev, film_badges(html, k), film_html(html, k), now, today);
            let r = badges_fold((st.0, Seq::empty()), film_badges(html, k), film_html(html, k), now, today);
            if r.1.len() > 0 {
                let meta = match first_of(selected_text_in(html, FILM_CSS@, k, INFO_CSS@)) {
                    Some(info) => meta_of(info),
                    None => (None, None),
                };
                let movie = MovieV {
                    external_id: attr_at(selected_attr(html, FILM_CSS@, "data-film-id"@), k),
                    title: title,
                    runtime_minutes: meta.0,
                    rating: meta.1,
                };
                let ms = st.1.push(MovieWithScreeningsV { movie: movie, screenings: r.1 });
                assert(ms.drop_last() =~= st.1);
                assert(all_screenings(ms) == prev + r.1);
                assert forall|i: int| 0 <= i < ms.len() implies (#[trigger] ms[i]).screenings.len() > 0 && ms[i].movie.title.len() > 0 by {
                    if i < st.1.len() {
                        assert(ms[i] == st.1[i]);
                    }
                }
            } else {
                assert(r.1 =~= Seq::<ScreeningV>::empty());
            }
        }
    }
}

proof fn lemma_films_links(html: Seq<char>, n: nat, now: i64, today: CivilDate)
    ensures
        links_unique(films_fold((Seq::empty(), Seq::empty()), html, n, now, today).0, all_screenings(films_fold((Seq::empty(), Seq::empty()), html, n, now, today).1)),
        movies_nonempty(films_fold((Seq::empty(), Seq::empty()), html, n, now, today).1),
    decreases n,
{
    if n > 0 {
        lemma_films_links(html, (n - 1) as nat, now, today);
        lemma_film_step_links(films_fold((Seq::empty(), Seq::empty()), html, (n - 1) as nat, now, today), html, n - 1, now, today);
    } else {
        assert(all_screenings(Seq::<MovieWithScreeningsV>::empty()) =~= Seq::<ScreeningV>::empty());
    }
}

/// On a parsed program page every movie has a title and at least one
/// screening, every screening has a booking link, and no two screenings
/// share a booking link.
pub proof fn lemma_theater_page_links(html: Seq<char>, now: i64, today: CivilDate)
    ensures
        movies_nonempty(theater_page(html, now, today)),
        forall|i: int| 0 <= i < all_screenings(theater_page(html, now, today)).len() ==> (#[trigger] all_screenings(theater_page(html, now, today))[i]).booking_url is Some,
        forall|i: int, j: int|
            0 <= i < j < all_screenings(theater_page(html, now, today)).len() ==> (#[trigger] all_screenings(theater_page(html, now, today))[i]).booking_url
                != (#[trigger] all_screenings(theater_page(html, now, today))[j]).booking_url,
{
    lemma_films_links(html, selected_html(html, FILM_CSS@).len(), now, today);
}

/// The first text that `inner` selects inside the `k`-th element that
/// `outer` selects.
pub(crate) fn first_text_in(html: &str, outer: &str, k: usize, inner: &str) -> (r: Option<String>)
    ensures
        opt_view(r) == first_of(selected_text_in(html@, outer@, k as int, inner@)),
{
    let v = select_text_in(html, outer, k, inner);
    if v.len() > 0 {
        assert(strings_view(v@)[0] == v@[0]@);
        Some(v[0].clone())
    } else {
        None
    }
}

fn badge_screening_exec(date_attr: &Option<String>, class: &Option<String>, url: &Vec<char>, film: &str, t: TimeOfDay, now: i64, today: CivilDate) -> (r: Screening)
    requires
        t.wf(),
        today.wf(),
    ensures
        r@ == badge_screening(opt_view(*date_attr), opt_view(*class), url@, film@, (t.hour, t.minute, t.second), now, today),
{
    let date = match date_attr {
        Some(d) => match parse_date_compact(d.as_str()) {
            Some(x) => x,
            None => today,
        },
        None => today,
    };
    let showtime = match berlin_to_utc(date, t) {
        Some(x) => x,
        None => now,
    };
    let class_attr = match class {
        Some(c) => chars_of(c.as_str()),
        None => Vec::new(),
    };
    let film_v = chars_of(film);
    let class_s = string_of(&class_attr);
    Screening {
        showtime: showtime,
        screening_type: detect_screening_type(class_s.as_str()),
        is_ov: contains_str(&class_attr, "attribute-ov") || (contains_str(&film_v, "data-attribute-id=\"ov\"")
            && is_section_ov_default(film)),
        is_omu: contains_str(&class_attr, "attribute-omu") && !contains_str(&class_attr, "attribute-omeu")
            && !contains_str(&class_attr, "attribute-omengu"),
        is_english_subs: contains_str(&class_attr, "attribute-omeu") || contains_str(&class_attr, "attribute-omengu"),
        is_3d: contains_str(&class_attr, "attribute-3d"),
        booking_url: Some(string_of(url)),
    }
}

/// The screenings of the badges of the `k`-th film block (`film` is its
/// HTML), each booking link taken once over `seen`.
fn scan_badges(html: &str, k: usize, film: &str, seen: &mut Vec<Vec<char>>, now: i64, today: CivilDate) -> (r: Vec<Screening>)
    requires
        today.wf(),
    ensures
        (final(seen)@.map_values(|v: Vec<char>| v@), r@.map_values(|s: Screening| s@)) == badges_fold(
            (old(seen)@.map_values(|v: Vec<char>| v@), Seq::empty()),
            film_badges(html@, k as int),
            film@,
            now,
            today,
        ),
{
    let hrefs = select_attr_in(html, FILM_CSS, k, BADGE_CSS, "href");
    let times = select_attr_in(html, FILM_CSS, k, BADGE_CSS, "data-time");
    let dates = select_attr_in(html, FILM_CSS, k, BADGE_CSS, "data-date");
    let classes = select_attr_in(html, FILM_CSS, k, BADGE_CSS, "class");
    let ghost bv = film_badges(html@, k as int);
    let ghost s0 = old(seen)@.map_values(|v: Vec<char>| v@);
    let mut out: Vec<Screening> = Vec::new();
    let mut i: usize = 0;
    assert(out@.map_values(|s: Screening| s@) =~= Seq::<ScreeningV>::empty());
    assert(bv.len() == hrefs.len());
    while i < hrefs.len()
        invariant
            i <= hrefs.len(),
            today.wf(),
            bv == film_badges(html@, k as int),
            bv.len() == hrefs.len(),
            opts_view(hrefs@) == selected_attr_in(html@, FILM_CSS@, k as int, BADGE_CSS@, "href"@),
            opts_view(times@) == selected_attr_in(html@, FILM_CSS@, k as int, BADGE_CSS@, "data-time"@),
            opts_view(dates@) == selected_attr_in(html@, FILM_CSS@, k as int, BADGE_CSS@, "data-date"@),
            opts_view(classes@) == selected_attr_in(html@, FILM_CSS@, k as int, BADGE_CSS@, "class"@),
            (seen@.map_values(|v: Vec<char>| v@), out@.map_values(|s: Screening| s@)) == badges_fold(
                (s0, Seq::empty()),
                bv.take(i as int),
                film@,
                now,
                today,
            ),
        decreases hrefs.len() - i,
    {
        assert(bv.take(i + 1).drop_last() =~= bv.take(i as int));
        let href = attr_at_exec(&hrefs, i);
        let time = attr_at_exec(&times, i);
        let date = attr_at_exec(&dates, i);
        let class = attr_at_exec(&classes, i);
        assert(bv.take(i + 1).last() == bv[i as int]);
        assert(bv[i as int] == (BadgeV { href: opt_view(href), time: opt_view(time), date: opt_view(date), class: opt_view(class) }));
        let ghost sv = seen@.map_values(|v: Vec<char>| v@);
        let ghost ov = out@.map_values(|s: Screening| s@);
        match href {
            None => {},
            Some(h) => {
                let mut url = chars_of(UCI_BASE);
                push_chars(&mut url, &chars_of(h.as_str()));
                if !list_contains(seen, &url) {
                    let ghost u = url@;
                    let url_copy = slice_chars(&url, 0, url.len());
                    assert(url_copy@ =~= u);
                    seen.push(url_copy);
                    assert(seen@.map_values(|v: Vec<char>| v@) =~= sv.push(u));
                    match parse_time_attr_opt(&time) {
                        None => {},
                        Some(t) => {
                            let s = badge_screening_exec(&date, &class, &url, film, t, now, today);
                            out.push(s);
                            assert(out@.map_values(|s: Screening| s@) =~= ov.push(s@));
                        },
                    }
                }
            },
        }
        i = i + 1;
    }
    assert(bv.take(hrefs.len() as int) =~= bv);
    out
}

/// The time on a badge.
fn parse_time_attr_opt(time: &Option<String>) -> (r: Option<TimeOfDay>)
    ensures
        time_parts(r) == badge_time(opt_view(*time)),
        r matches Some(t) ==> t.wf(),
{
    match time {
        Some(t) => parse_time_attr(t.as_str()),
        None => None,
    }
}

/// Parses the theater program page HTML: each film block with a title and
/// at least one showtime badge becomes a movie.  A badge's booking link is
/// taken once over the whole page.  `now` (Unix seconds) stands in for a
/// local time that does not exist or is ambiguous in Berlin, and `today`
/// (UTC) for a badge without a date.
pub fn parse_theater_page(html: &str, now: i64, today: CivilDate) -> (r: Vec<MovieWithScreenings>)
    requires
        today.wf(),
    ensures
        r@.map_values(|m: MovieWithScreenings| m@) == theater_page(html@, now, today),
{
    let films = select_html(html, FILM_CSS);
    let ids = select_attr(html, FILM_CSS, "data-film-id");
    let ghost fv = strings_view(films@);
    let mut seen: Vec<Vec<char>> = Vec::new();
    let mut movies: Vec<MovieWithScreenings> = Vec::new();
    let mut i: usize = 0;
    assert(seen@.map_values(|v: Vec<char>| v@) =~= Seq::<Seq<char>>::empty());
    assert(movies@.map_values(|m: MovieWithScreenings| m@) =~= Seq::<MovieWithScreeningsV>::empty());
    while i < films.len()
        invariant
            i <= films.len(),
            today.wf(),
            fv == strings_view(films@),
            fv == selected_html(html@, FILM_CSS@),
            opts_view(ids@) == selected_attr(html@, FILM_CSS@, "data-film-id"@),
            (seen@.map_values(|v: Vec<char>| v@), movies@.map_values(|m: MovieWithScreenings| m@)) == films_fold(
                (Seq::empty(), Seq::empty()),
                html@,
                i as nat,
                now,
                today,
            ),
        decreases films.len() - i,
    {
        assert(fv[i as int] == films@[i as int]@);
        let film = films[i].as_str();
        let ghost mv = movies@.map_values(|m: MovieWithScreenings| m@);
        match first_text_in(html, FILM_CSS, i, TITLE_CSS) {
            None => {},
            Some(raw) => {
                let tv = trim_chars(&chars_of(raw.as_str()));
                if tv.len() > 0 {
                    let title = string_of(&tv);
                    let (runtime, rating) = match first_text_in(html, FILM_CSS, i, INFO_CSS) {
                        Some(info) => parse_meta(info.as_str()),
                        None => (None, None),
                    };
                    let screenings = scan_badges(html, i, film, &mut seen, now, today);
                    if screenings.len() > 0 {
                        let movie = Movie {
                            external_id: attr_at_exec(&ids, i),
                            title: title,
                            runtime_minutes: runtime,
                            rating: rating,
                        };
                        let m = MovieWithScreenings { movie: movie, screenings: screenings };
                        movies.push(m);
                        assert(movies@.map_values(|m: MovieWithScreenings| m@) =~= mv.push(m@));
                    }
                }
            },
        }
        i = i + 1;
    }
    movies
}

// ---------------------------------------------------------------------
// Theaters
// ---------------------------------------------------------------------

/// The address of a theater's program page.
pub open spec fn program_url_of(name: Seq<char>, theater_id: Seq<char>) -> Seq<char> {
    "https://www.uci-kinowelt.de/kinoprogramm/"@ + slug_of(name) + "/"@ + theater_id
}

/// The URL of a theater's program page: its slug, then its id.
pub fn program_url(name: &str, theater_id: &str) -> (r: String)
    ensures
        r@ == program_url_of(name@, theater_id@),
{
    let mut v = chars_of("https://www.uci-kinowelt.de/kinoprogramm/");
    push_chars(&mut v, &chars_of(theater_name_to_slug(name).as_str()));
    push_chars(&mut v, &chars_of("/"));
    push_chars(&mut v, &chars_of(theater_id));
    string_of(&v)
}

/// The theater record of a UCI location: city from its name, its address,
/// the program page by slug, and its coordinates as given.
pub fn uci_theater(theater_id: &str, name: &str, address: &str, latitude: &str, longitude: &str) -> (r: Theater)
    ensures
        r@.external_id == theater_id@,
        r@.name == name@,
        r@.city == (if contains(name@, "Berlin"@) {
            Some("Berlin"@)
        } else if contains(name@, "Potsdam"@) {
            Some("Potsdam"@)
        } else {
            None
        }),
        r@.address == Some(address@),
        r@.url == Some("https://www.uci-kinowelt.de/kinoprogramm/"@ + slug_of(name@)),
        r@.latitude == Some(latitude@),
        r@.longitude == Some(longitude@),
{
    let mut url = chars_of("https://www.uci-kinowelt.de/kinoprogramm/");
    push_chars(&mut url, &chars_of(theater_name_to_slug(name).as_str()));
    Theater {
        external_id: string_of(&chars_of(theater_id)),
        name: string_of(&chars_of(name)),
        city: extract_city(name),
        address: Some(string_of(&chars_of(address))),
        url: Some(string_of(&url)),
        latitude: Some(string_of(&chars_of(latitude))),
        longitude: Some(string_of(&chars_of(longitude))),
    }
}

} // verus!
