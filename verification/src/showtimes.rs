//! The showtimes of a movie card, grouped by Berlin calendar day.
use crate::clock::{rfc3339_text, utc_rfc3339};
use crate::page_text::{BOOK_LINK_0, BOOK_LINK_1, CARD_CLOSE, DAY_CLOSE, DAY_OPEN_0, DAY_OPEN_1, DAY_OPEN_2, SCREENINGS_OPEN, SCREENING_ITEM_0, SCREENING_ITEM_1, SCREENING_ITEM_2, SCREENING_ITEM_3, SCREENING_ITEM_4, SCREENING_ITEM_5, SCREENING_ITEM_6, THEATER_LINK_0, THEATER_LINK_1, THEATER_LINK_2};
use crate::site_page::{distinct, lit, or_empty, push_joined, put_esc, put_time, screening_days, shown, ScreeningData, ScreeningDataV};
use crate::static_site::html_escaped;
use crate::text::{chars_eq, chars_of, join, push_chars};
use crate::theaters::{lemma_lex_irreflexive, lemma_lex_total, lemma_lex_transitive, lex_lt, lex_lt_exec};
use vstd::prelude::*;

verus! {

/// The Berlin calendar day of a screening, as `YYYY-MM-DD`.
pub open spec fn day_of(s: ScreeningDataV) -> Seq<char> {
    shown(s.showtime, "%Y-%m-%d"@)
}

/// The tags of a screening: OV, OmU, OmeU, 3D and its type, in that order.
pub open spec fn tags_of(s: ScreeningDataV) -> Seq<Seq<char>> {
    (if s.is_ov {
        seq!["OV"@]
    } else {
        Seq::empty()
    }) + (if s.is_omu {
        seq!["OmU"@]
    } else {
        Seq::empty()
    }) + (if s.is_english_subs {
        seq!["OmeU"@]
    } else {
        Seq::empty()
    }) + (if s.is_3d {
        seq!["3D"@]
    } else {
        Seq::empty()
    }) + (match s.screening_type {
        Some(t) => seq![t],
        None => Seq::empty(),
    })
}

/// The theater's name, linked to its site when the URL is known.
pub open spec fn theater_html_of(s: ScreeningDataV) -> Seq<char> {
    match s.theater_url {
        Some(u) => THEATER_LINK_0@ + html_escaped(u) + THEATER_LINK_1@ + html_escaped(s.theater_name)
            + THEATER_LINK_2@,
        None => html_escaped(s.theater_name),
    }
}

/// The booking link, when there is one.
pub open spec fn booking_of(s: ScreeningDataV) -> Seq<char> {
    match s.booking_url {
        Some(u) => BOOK_LINK_0@ + html_escaped(u) + BOOK_LINK_1@,
        None => Seq::empty(),
    }
}

/// One line of the showtimes list.
pub open spec fn screening_item(s: ScreeningDataV) -> Seq<char> {
    SCREENING_ITEM_0@ + html_escaped(s.normalized_theater_name) + SCREENING_ITEM_1@ + or_empty(
        rfc3339_text(s.showtime),
    ) + SCREENING_ITEM_2@ + shown(s.showtime, "%H:%M"@) + SCREENING_ITEM_3@ + theater_html_of(s)
        + SCREENING_ITEM_4@ + join(tags_of(s), " "@) + SCREENING_ITEM_5@ + booking_of(s)
        + SCREENING_ITEM_6@
}

/// The lines of the screenings on day `k`, in the order given.
pub open spec fn day_items(ss: Seq<ScreeningDataV>, k: Seq<char>) -> Seq<char>
    decreases ss.len(),
{
    if ss.len() == 0 {
        Seq::empty()
    } else {
        day_items(ss.drop_last(), k) + (if day_of(ss.last()) == k {
            screening_item(ss.last())
        } else {
            Seq::empty()
        })
    }
}

/// The first screening on day `k`.
pub open spec fn first_on_day(ss: Seq<ScreeningDataV>, k: Seq<char>) -> Option<ScreeningDataV>
    decreases ss.len(),
{
    if ss.len() == 0 {
        None
    } else {
        match first_on_day(ss.drop_last(), k) {
            Some(s) => Some(s),
            None => if day_of(ss.last()) == k {
                Some(ss.last())
            } else {
                None
            },
        }
    }
}

/// The heading of day `k`, written from its first screening.
pub open spec fn day_heading(ss: Seq<ScreeningDataV>, k: Seq<char>) -> Seq<char> {
    match first_on_day(ss, k) {
        Some(s) => shown(s.showtime, "%A, %B %d"@),
        None => Seq::empty(),
    }
}

/// The block of day `k`: its date, heading and screenings.
pub open spec fn day_block(ss: Seq<ScreeningDataV>, k: Seq<char>) -> Seq<char> {
    DAY_OPEN_0@ + k + DAY_OPEN_1@ + day_heading(ss, k) + DAY_OPEN_2@ + day_items(ss, k)
        + DAY_CLOSE@
}

/// Inserts `x` before the first key that sorts after it.
pub open spec fn insert_key(s: Seq<Seq<char>>, x: Seq<char>) -> Seq<Seq<char>>
    decreases s.len(),
{
    if s.len() == 0 {
        seq![x]
    } else if lex_lt(x, s[0]) {
        seq![x] + s
    } else {
        seq![s[0]] + insert_key(s.drop_first(), x)
    }
}

/// The keys sorted by insertion, in character order.
pub open spec fn sort_keys(s: Seq<Seq<char>>) -> Seq<Seq<char>>
    decreases s.len(),
{
    if s.len() == 0 {
        Seq::empty()
    } else {
        insert_key(sort_keys(s.drop_last()), s.last())
    }
}

/// The days with screenings, each once, in ascending order.
pub open spec fn show_days(ss: Seq<ScreeningDataV>) -> Seq<Seq<char>> {
    sort_keys(distinct(screening_days(ss)))
}

/// The blocks of the given days, in order.
pub open spec fn day_blocks(ss: Seq<ScreeningDataV>, days: Seq<Seq<char>>) -> Seq<char>
    decreases days.len(),
{
    if days.len() == 0 {
        Seq::empty()
    } else {
        day_blocks(ss, days.drop_last()) + day_block(ss, days.last())
    }
}

/// The showtimes section that closes a movie card.
pub open spec fn screenings_part(ss: Seq<ScreeningDataV>) -> Seq<char> {
    SCREENINGS_OPEN@ + day_blocks(ss, show_days(ss)) + CARD_CLOSE@
}

// ---------------------------------------------------------------------
// Sorting the days
// ---------------------------------------------------------------------

/// Strictly ascending in character order.
pub open spec fn ascending(s: Seq<Seq<char>>) -> bool {
    forall|i: int, j: int| 0 <= i < j < s.len() ==> lex_lt(#[trigger] s[i], #[trigger] s[j])
}

proof fn lemma_insert_key_at(s: Seq<Seq<char>>, x: Seq<char>, i: int)
    requires
        0 <= i <= s.len(),
        forall|j: int| 0 <= j < i ==> !lex_lt(x, #[trigger] s[j]),
        i < s.len() ==> lex_lt(x, s[i]),
    ensures
        insert_key(s, x) == s.take(i) + seq![x] + s.skip(i),
    decreases i,
{
    if i == 0 {
        if s.len() == 0 {
            assert(s.take(0) + seq![x] + s.skip(0) =~= seq![x]);
        } else {
            assert(s.take(0) + seq![x] + s.skip(0) =~= seq![x] + s);
        }
    } else {
        let t = s.drop_first();
        assert forall|j: int| 0 <= j < i - 1 implies !lex_lt(x, #[trigger] t[j]) by {
            assert(t[j] == s[j + 1]);
        }
        if i - 1 < t.len() {
            assert(t[i - 1] == s[i]);
        }
        lemma_insert_key_at(t, x, i - 1);
        assert(!lex_lt(x, s[0]));
        assert(seq![s[0]] + (t.take(i - 1) + seq![x] + t.skip(i - 1)) =~= s.take(i) + seq![x]
            + s.skip(i));
    }
}

proof fn lemma_insert_key_keeps(s: Seq<Seq<char>>, x: Seq<char>)
    requires
        ascending(s),
        !s.contains(x),
    ensures
        ascending(insert_key(s, x)),
        forall|y: Seq<char>| insert_key(s, x).contains(y) <==> (s.contains(y) || y == x),
    decreases s.len(),
{
    if s.len() == 0 {
        let r = seq![x];
        assert forall|y: Seq<char>| r.contains(y) <==> (s.contains(y) || y == x) by {
            if r.contains(y) {
                assert(r[0] == y);
            }
            if y == x {
                assert(r[0] == y);
            }
        }
    } else if lex_lt(x, s[0]) {
        let r = seq![x] + s;
        assert forall|i: int, j: int| 0 <= i < j < r.len() implies lex_lt(#[trigger] r[i], #[trigger] r[j]) by {
            if i == 0 {
                if j > 1 {
                    lemma_lex_transitive(x, s[0], s[j - 1]);
                }
            } else {
                assert(r[i] == s[i - 1] && r[j] == s[j - 1]);
            }
        }
        assert forall|y: Seq<char>| r.contains(y) <==> (s.contains(y) || y == x) by {
            if r.contains(y) {
                let k = choose|k: int| 0 <= k < r.len() && r[k] == y;
                if k > 0 {
                    assert(s[k - 1] == y);
                }
            }
            if s.contains(y) {
                let k = choose|k: int| 0 <= k < s.len() && s[k] == y;
                assert(r[k + 1] == y);
            }
            if y == x {
                assert(r[0] == y);
            }
        }
    } else {
        let t = s.drop_first();
        assert(ascending(t)) by {
            assert forall|i: int, j: int| 0 <= i < j < t.len() implies lex_lt(#[trigger] t[i], #[trigger] t[j]) by {
                assert(t[i] == s[i + 1] && t[j] == s[j + 1]);
            }
        }
        assert(!t.contains(x)) by {
            if t.contains(x) {
                let k = choose|k: int| 0 <= k < t.len() && t[k] == x;
                assert(s[k + 1] == x);
            }
        }
        lemma_insert_key_keeps(t, x);
        let u = insert_key(t, x);
        let r = seq![s[0]] + u;
        assert(x != s[0]) by {
            assert(s[0] == s[0]);
        }
        assert(lex_lt(s[0], x)) by {
            lemma_lex_total(s[0], x);
        }
        assert forall|i: int, j: int| 0 <= i < j < r.len() implies lex_lt(#[trigger] r[i], #[trigger] r[j]) by {
            if i == 0 {
                let y = r[j];
                assert(u[j - 1] == y);
                assert(u.contains(y));
                assert(t.contains(y) || y == x);
                if y != x {
                    assert(t.contains(y));
                    let k = choose|k: int| 0 <= k < t.len() && t[k] == y;
                    assert(s[k + 1] == y);
                    assert(lex_lt(s[0], s[k + 1]));
                }
            } else {
                assert(r[i] == u[i - 1] && r[j] == u[j - 1]);
            }
        }
        assert forall|y: Seq<char>| r.contains(y) <==> (s.contains(y) || y == x) by {
            if r.contains(y) {
                let k = choose|k: int| 0 <= k < r.len() && r[k] == y;
                if k > 0 {
                    assert(u[k - 1] == y);
                    assert(u.contains(y));
                    if t.contains(y) {
                        let m = choose|m: int| 0 <= m < t.len() && t[m] == y;
                        assert(s[m + 1] == y);
                    }
                } else {
                    assert(s[0] == y);
                }
            }
            if s.contains(y) {
                let k = choose|k: int| 0 <= k < s.len() && s[k] == y;
                if k == 0 {
                    assert(r[0] == y);
                } else {
                    assert(t[k - 1] == y);
                    assert(t.contains(y));
                    assert(u.contains(y));
                    let m = choose|m: int| 0 <= m < u.len() && u[m] == y;
                    assert(r[m + 1] == y);
                }
            }
            if y == x {
                assert(u.contains(y));
                let m = choose|m: int| 0 <= m < u.len() && u[m] == y;
                assert(r[m + 1] == y);
            }
        }
    }
}

proof fn lemma_sort_keys(s: Seq<Seq<char>>)
    requires
        forall|i: int, j: int| 0 <= i < j < s.len() ==> #[trigger] s[i] != #[trigger] s[j],
    ensures
        ascending(sort_keys(s)),
        forall|y: Seq<char>| sort_keys(s).contains(y) <==> s.contains(y),
    decreases s.len(),
{
    if s.len() > 0 {
        let p = s.drop_last();
        assert forall|i: int, j: int| 0 <= i < j < p.len() implies #[trigger] p[i] != #[trigger] p[j] by {
            assert(p[i] == s[i] && p[j] == s[j]);
        }
        lemma_sort_keys(p);
        assert(!sort_keys(p).contains(s.last())) by {
            if p.contains(s.last()) {
                let k = choose|k: int| 0 <= k < p.len() && p[k] == s.last();
                assert(s[k] == s[s.len() - 1]);
            }
        }
        lemma_insert_key_keeps(sort_keys(p), s.last());
        assert forall|y: Seq<char>| sort_keys(s).contains(y) <==> s.contains(y) by {
            if p.contains(y) {
                let k = choose|k: int| 0 <= k < p.len() && p[k] == y;
                assert(s[k] == y);
            }
            if s.contains(y) {
                let k = choose|k: int| 0 <= k < s.len() && s[k] == y;
                if k < s.len() - 1 {
                    assert(p[k] == y);
                }
            }
        }
    }
}

proof fn lemma_distinct(s: Seq<Seq<char>>)
    ensures
        forall|i: int, j: int|
            0 <= i < j < distinct(s).len() ==> #[trigger] distinct(s)[i] != #[trigger] distinct(s)[j],
        forall|y: Seq<char>| distinct(s).contains(y) <==> s.contains(y),
    decreases s.len(),
{
    if s.len() > 0 {
        let p = s.drop_last();
        lemma_distinct(p);
        let r = distinct(p);
        assert forall|y: Seq<char>| distinct(s).contains(y) <==> s.contains(y) by {
            if p.contains(y) {
                let k = choose|k: int| 0 <= k < p.len() && p[k] == y;
                assert(s[k] == y);
            }
            if s.contains(y) {
                let k = choose|k: int| 0 <= k < s.len() && s[k] == y;
                if k < s.len() - 1 {
                    assert(p[k] == y);
                }
            }
            if !r.contains(s.last()) {
                let q = r.push(s.last());
                if q.contains(y) {
                    let k = choose|k: int| 0 <= k < q.len() && q[k] == y;
                    if k < r.len() {
                        assert(r[k] == y);
                    }
                }
                if r.contains(y) {
                    let k = choose|k: int| 0 <= k < r.len() && r[k] == y;
                    assert(q[k] == y);
                }
                if y == s.last() {
                    assert(q[r.len() as int] == y);
                }
            }
        }
    }
}

/// The days listed on a card are in ascending order, each appears once, and
/// they are exactly the Berlin days on which the movie has a screening.
pub proof fn lemma_show_days(ss: Seq<ScreeningDataV>)
    ensures
        ascending(show_days(ss)),
        forall|y: Seq<char>|
            show_days(ss).contains(y) <==> exists|i: int| 0 <= i < ss.len() && #[trigger] day_of(ss[i]) == y,
{
    let d = screening_days(ss);
    lemma_distinct(d);
    lemma_sort_keys(distinct(d));
    assert forall|y: Seq<char>|
        show_days(ss).contains(y) <==> exists|i: int| 0 <= i < ss.len() && #[trigger] day_of(ss[i]) == y by {
        if d.contains(y) {
            let k = choose|k: int| 0 <= k < d.len() && d[k] == y;
            assert(day_of(ss[k]) == y);
        }
        if exists|i: int| 0 <= i < ss.len() && #[trigger] day_of(ss[i]) == y {
            let k = choose|i: int| 0 <= i < ss.len() && #[trigger] day_of(ss[i]) == y;
            assert(d[k] == y);
        }
    }
}

/// The dates a card offers to the date filter are exactly the days of its
/// showtime blocks.
pub proof fn lemma_card_dates_match_blocks(ss: Seq<ScreeningDataV>)
    ensures
        forall|y: Seq<char>| distinct(screening_days(ss)).contains(y) <==> show_days(ss).contains(y),
{
    lemma_distinct(screening_days(ss));
    lemma_sort_keys(distinct(screening_days(ss)));
}

/// The screenings on day `k`, in the order given.
pub open spec fn on_day(ss: Seq<ScreeningDataV>, k: Seq<char>) -> Seq<ScreeningDataV>
    decreases ss.len(),
{
    if ss.len() == 0 {
        Seq::empty()
    } else {
        let r = on_day(ss.drop_last(), k);
        if day_of(ss.last()) == k {
            r.push(ss.last())
        } else {
            r
        }
    }
}

/// The lines of a list of screenings.
pub open spec fn items_of(ss: Seq<ScreeningDataV>) -> Seq<char>
    decreases ss.len(),
{
    if ss.len() == 0 {
        Seq::empty()
    } else {
        items_of(ss.drop_last()) + screening_item(ss.last())
    }
}

/// How many screenings the blocks of the days `ks` hold together.
pub open spec fn total_on_days(ss: Seq<ScreeningDataV>, ks: Seq<Seq<char>>) -> nat
    decreases ks.len(),
{
    if ks.len() == 0 {
        0
    } else {
        total_on_days(ss, ks.drop_last()) + on_day(ss, ks.last()).len()
    }
}

/// How often `d` occurs in `ks`.
pub open spec fn occurrences(ks: Seq<Seq<char>>, d: Seq<char>) -> nat
    decreases ks.len(),
{
    if ks.len() == 0 {
        0
    } else {
        occurrences(ks.drop_last(), d) + (if ks.last() == d {
            1nat
        } else {
            0nat
        })
    }
}

proof fn lemma_day_items_are_on_day(ss: Seq<ScreeningDataV>, k: Seq<char>)
    ensures
        day_items(ss, k) == items_of(on_day(ss, k)),
        forall|j: int| 0 <= j < on_day(ss, k).len() ==> day_of(#[trigger] on_day(ss, k)[j]) == k,
    decreases ss.len(),
{
    if ss.len() > 0 {
        lemma_day_items_are_on_day(ss.drop_last(), k);
        let r = on_day(ss.drop_last(), k);
        if day_of(ss.last()) == k {
            assert(r.push(ss.last()).drop_last() =~= r);
            assert forall|j: int| 0 <= j < r.push(ss.last()).len() implies day_of(#[trigger] r.push(ss.last())[j]) == k by {
                if j < r.len() {
                    assert(r.push(ss.last())[j] == r[j]);
                }
            }
        } else {
            assert(day_items(ss, k) =~= day_items(ss.drop_last(), k));
        }
    }
}

proof fn lemma_total_push(ss: Seq<ScreeningDataV>, x: ScreeningDataV, ks: Seq<Seq<char>>)
    ensures
        total_on_days(ss.push(x), ks) == total_on_days(ss, ks) + occurrences(ks, day_of(x)),
    decreases ks.len(),
{
    if ks.len() > 0 {
        lemma_total_push(ss, x, ks.drop_last());
        assert(ss.push(x).drop_last() =~= ss);
    }
}

proof fn lemma_occurs_once(ks: Seq<Seq<char>>, d: Seq<char>)
    requires
        forall|a: int, b: int| 0 <= a < b < ks.len() ==> #[trigger] ks[a] != #[trigger] ks[b],
        ks.contains(d),
    ensures
        occurrences(ks, d) == 1,
    decreases ks.len(),
{
    let p = ks.drop_last();
    assert forall|a: int, b: int| 0 <= a < b < p.len() implies #[trigger] p[a] != #[trigger] p[b] by {
        assert(p[a] == ks[a] && p[b] == ks[b]);
    }
    if ks.last() == d {
        assert(!p.contains(d)) by {
            if p.contains(d) {
                let a = choose|a: int| 0 <= a < p.len() && p[a] == d;
                assert(ks[a] == ks[ks.len() - 1]);
            }
        }
        lemma_occurs_never(p, d);
    } else {
        let a = choose|a: int| 0 <= a < ks.len() && ks[a] == d;
        assert(p[a] == d);
        lemma_occurs_once(p, d);
    }
}

proof fn lemma_occurs_never(ks: Seq<Seq<char>>, d: Seq<char>)
    requires
        !ks.contains(d),
    ensures
        occurrences(ks, d) == 0,
    decreases ks.len(),
{
    if ks.len() > 0 {
        assert(!ks.drop_last().contains(d)) by {
            if ks.drop_last().contains(d) {
                let a = choose|a: int| 0 <= a < ks.drop_last().len() && ks.drop_last()[a] == d;
                assert(ks[a] == d);
            }
        }
        assert(ks[ks.len() - 1] != d);
        lemma_occurs_never(ks.drop_last(), d);
    }
}

proof fn lemma_total_is_len(ss: Seq<ScreeningDataV>, ks: Seq<Seq<char>>)
    requires
        forall|a: int, b: int| 0 <= a < b < ks.len() ==> #[trigger] ks[a] != #[trigger] ks[b],
        forall|i: int| 0 <= i < ss.len() ==> ks.contains(day_of(#[trigger] ss[i])),
    ensures
        total_on_days(ss, ks) == ss.len(),
    decreases ss.len(),
{
    if ss.len() == 0 {
        lemma_total_empty(ks);
        assert(ss =~= Seq::<ScreeningDataV>::empty());
    } else {
        let p = ss.drop_last();
        assert forall|i: int| 0 <= i < p.len() implies ks.contains(day_of(#[trigger] p[i])) by {
            assert(p[i] == ss[i]);
        }
        lemma_total_is_len(p, ks);
        assert(ks.contains(day_of(ss[ss.len() - 1])));
        lemma_occurs_once(ks, day_of(ss.last()));
        lemma_total_push(p, ss.last(), ks);
        assert(p.push(ss.last()) =~= ss);
    }
}

proof fn lemma_total_empty(ks: Seq<Seq<char>>)
    ensures
        total_on_days(Seq::empty(), ks) == 0,
    decreases ks.len(),
{
    if ks.len() > 0 {
        lemma_total_empty(ks.drop_last());
    }
}

/// Every screening of a card is shown once: the block of a day lists
/// exactly the screenings on that day, in order, and the blocks together
/// hold as many screenings as the movie has.
pub proof fn lemma_each_screening_once(ss: Seq<ScreeningDataV>)
    ensures
        forall|k: Seq<char>| #[trigger] day_items(ss, k) == items_of(on_day(ss, k)),
        forall|k: Seq<char>, j: int| 0 <= j < on_day(ss, k).len() ==> day_of(#[trigger] on_day(ss, k)[j]) == k,
        total_on_days(ss, show_days(ss)) == ss.len(),
{
    assert forall|k: Seq<char>| #[trigger] day_items(ss, k) == items_of(on_day(ss, k)) by {
        lemma_day_items_are_on_day(ss, k);
    }
    assert forall|k: Seq<char>, j: int| 0 <= j < on_day(ss, k).len() implies day_of(#[trigger] on_day(ss, k)[j]) == k by {
        lemma_day_items_are_on_day(ss, k);
    }
    lemma_show_days(ss);
    let ks = show_days(ss);
    assert forall|a: int, b: int| 0 <= a < b < ks.len() implies #[trigger] ks[a] != #[trigger] ks[b] by {
        if ks[a] == ks[b] {
            lemma_lex_irreflexive(ks[a]);
        }
    }
    assert forall|i: int| 0 <= i < ss.len() implies ks.contains(day_of(#[trigger] ss[i])) by {
        let d = day_of(ss[i]);
        assert(0 <= i < ss.len() && day_of(ss[i]) == d);
        assert(show_days(ss).contains(d) <==> exists|j: int| 0 <= j < ss.len() && #[trigger] day_of(ss[j]) == d);
    }
    lemma_total_is_len(ss, ks);
}

/// Inserts `x` into a list kept in character order.
fn insert_day(list: &mut Vec<Vec<char>>, x: Vec<char>)
    ensures
        final(list)@.map_values(|v: Vec<char>| v@) == insert_key(
            old(list)@.map_values(|v: Vec<char>| v@),
            x@,
        ),
{
    let ghost lv = list@.map_values(|v: Vec<char>| v@);
    let mut i: usize = 0;
    while i < list.len() && !lex_lt_exec(&x, &list[i])
        invariant
            i <= list.len(),
            lv == list@.map_values(|v: Vec<char>| v@),
            forall|j: int| 0 <= j < i ==> !lex_lt(x@, #[trigger] lv[j]),
        decreases list.len() - i,
    {
        i = i + 1;
    }
    proof {
        lemma_insert_key_at(lv, x@, i as int);
    }
    let ghost xv = x@;
    list.insert(i, x);
    assert(list@.map_values(|v: Vec<char>| v@) =~= lv.take(i as int) + seq![xv] + lv.skip(
        i as int,
    ));
}

fn copy_chars(v: &Vec<char>) -> (r: Vec<char>)
    ensures
        r@ == v@,
{
    let mut r: Vec<char> = Vec::new();
    push_chars(&mut r, v);
    assert(r@ =~= v@);
    r
}

/// The distinct days, sorted.
fn sort_days(days: &Vec<Vec<char>>) -> (r: Vec<Vec<char>>)
    ensures
        r@.map_values(|v: Vec<char>| v@) == sort_keys(days@.map_values(|v: Vec<char>| v@)),
{
    let ghost dv = days@.map_values(|v: Vec<char>| v@);
    let mut r: Vec<Vec<char>> = Vec::new();
    let mut i: usize = 0;
    assert(r@.map_values(|v: Vec<char>| v@) =~= sort_keys(dv.take(0)));
    while i < days.len()
        invariant
            i <= days.len(),
            dv == days@.map_values(|v: Vec<char>| v@),
            r@.map_values(|v: Vec<char>| v@) == sort_keys(dv.take(i as int)),
        decreases days.len() - i,
    {
        assert(dv.take(i + 1).drop_last() =~= dv.take(i as int));
        assert(dv.take(i + 1).last() == days@[i as int]@);
        let c = copy_chars(&days[i]);
        insert_day(&mut r, c);
        i = i + 1;
    }
    assert(dv.take(days.len() as int) =~= dv);
    r
}

// ---------------------------------------------------------------------
// Writing the section
// ---------------------------------------------------------------------

fn push_tags(out: &mut Vec<char>, s: &ScreeningData)
    ensures
        final(out)@ == old(out)@ + join(tags_of(s@), " "@),
{
    let mut tags: Vec<Vec<char>> = Vec::new();
    if s.is_ov {
        tags.push(chars_of("OV"));
    }
    if s.is_omu {
        tags.push(chars_of("OmU"));
    }
    if s.is_english_subs {
        tags.push(chars_of("OmeU"));
    }
    if s.is_3d {
        tags.push(chars_of("3D"));
    }
    match &s.screening_type {
        Some(t) => tags.push(chars_of(t.as_str())),
        None => {},
    }
    assert(tags@.map_values(|v: Vec<char>| v@) =~= tags_of(s@));
    push_joined(out, &tags, " ");
}

fn push_theater_html(out: &mut Vec<char>, s: &ScreeningData)
    ensures
        final(out)@ == old(out)@ + theater_html_of(s@),
{
    match &s.theater_url {
        Some(u) => {
            lit(out, THEATER_LINK_0);
            put_esc(out, u.as_str());
            lit(out, THEATER_LINK_1);
            put_esc(out, s.theater_name.as_str());
            lit(out, THEATER_LINK_2);
        },
        None => put_esc(out, s.theater_name.as_str()),
    }
    assert(out@ =~= old(out)@ + theater_html_of(s@));
}

fn push_booking(out: &mut Vec<char>, s: &ScreeningData)
    ensures
        final(out)@ == old(out)@ + booking_of(s@),
{
    match &s.booking_url {
        Some(u) => {
            lit(out, BOOK_LINK_0);
            put_esc(out, u.as_str());
            lit(out, BOOK_LINK_1);
        },
        None => {},
    }
    assert(out@ =~= old(out)@ + booking_of(s@));
}

fn push_instant(out: &mut Vec<char>, ts: i64)
    ensures
        final(out)@ == old(out)@ + or_empty(rfc3339_text(ts)),
{
    match utc_rfc3339(ts) {
        Some(t) => lit(out, t.as_str()),
        None => {},
    }
    assert(out@ =~= old(out)@ + or_empty(rfc3339_text(ts)));
}

fn push_screening_item(out: &mut Vec<char>, s: &ScreeningData)
    ensures
        final(out)@ == old(out)@ + screening_item(s@),
{
    let ghost o0 = out@;
    lit(out, SCREENING_ITEM_0);
    put_esc(out, s.normalized_theater_name.as_str());
    lit(out, SCREENING_ITEM_1);
    push_instant(out, s.showtime);
    lit(out, SCREENING_ITEM_2);
    put_time(out, s.showtime, "%H:%M");
    lit(out, SCREENING_ITEM_3);
    push_theater_html(out, s);
    lit(out, SCREENING_ITEM_4);
    push_tags(out, s);
    lit(out, SCREENING_ITEM_5);
    push_booking(out, s);
    lit(out, SCREENING_ITEM_6);
    assert(out@ =~= o0 + screening_item(s@));
}

fn push_day_block(out: &mut Vec<char>, ss: &Vec<ScreeningData>, k: &Vec<char>)
    ensures
        final(out)@ == old(out)@ + day_block(ss@.map_values(|s: ScreeningData| s@), k@),
{
    let ghost sv = ss@.map_values(|s: ScreeningData| s@);
    let mut items: Vec<char> = Vec::new();
    let mut first: Option<usize> = None;
    let mut i: usize = 0;
    while i < ss.len()
        invariant
            i <= ss.len(),
            sv == ss@.map_values(|s: ScreeningData| s@),
            items@ == day_items(sv.take(i as int), k@),
            match first {
                Some(j) => j < i && first_on_day(sv.take(i as int), k@) == Some(sv[j as int]),
                None => first_on_day(sv.take(i as int), k@) is None,
            },
        decreases ss.len() - i,
    {
        assert(sv.take(i + 1).drop_last() =~= sv.take(i as int));
        assert(sv.take(i + 1).last() == ss@[i as int]@);
        let s = &ss[i];
        let mut d: Vec<char> = Vec::new();
        put_time(&mut d, s.showtime, "%Y-%m-%d");
        assert(d@ =~= day_of(s@));
        if chars_eq(&d, k) {
            push_screening_item(&mut items, s);
            if first.is_none() {
                first = Some(i);
            }
        } else {
            assert(items@ =~= day_items(sv.take(i + 1), k@));
        }
        i = i + 1;
    }
    assert(sv.take(ss.len() as int) =~= sv);
    let ghost o0 = out@;
    lit(out, DAY_OPEN_0);
    push_chars(out, k);
    lit(out, DAY_OPEN_1);
    let ghost o1 = out@;
    match first {
        Some(j) => put_time(out, ss[j].showtime, "%A, %B %d"),
        None => {},
    }
    assert(out@ =~= o1 + day_heading(sv, k@));
    lit(out, DAY_OPEN_2);
    push_chars(out, &items);
    lit(out, DAY_CLOSE);
    assert(out@ =~= o0 + day_block(sv, k@));
}

/// Writes the showtimes section of a card.
pub(crate) fn push_screenings(out: &mut Vec<char>, ss: &Vec<ScreeningData>, days: &Vec<Vec<char>>)
    requires
        days@.map_values(|v: Vec<char>| v@) == distinct(
            screening_days(ss@.map_values(|s: ScreeningData| s@)),
        ),
    ensures
        final(out)@ == old(out)@ + screenings_part(ss@.map_values(|s: ScreeningData| s@)),
{
    let ghost sv = ss@.map_values(|s: ScreeningData| s@);
    let sorted = sort_days(days);
    let ghost kv = sorted@.map_values(|v: Vec<char>| v@);
    lit(out, SCREENINGS_OPEN);
    let ghost base = out@;
    let mut i: usize = 0;
    while i < sorted.len()
        invariant
            i <= sorted.len(),
            sv == ss@.map_values(|s: ScreeningData| s@),
            kv == sorted@.map_values(|v: Vec<char>| v@),
            out@ == base + day_blocks(sv, kv.take(i as int)),
        decreases sorted.len() - i,
    {
        assert(kv.take(i + 1).drop_last() =~= kv.take(i as int));
        assert(kv.take(i + 1).last() == sorted@[i as int]@);
        push_day_block(out, ss, &sorted[i]);
        i = i + 1;
    }
    assert(kv.take(sorted.len() as int) =~= kv);
    lit(out, CARD_CLOSE);
    assert(out@ =~= old(out)@ + screenings_part(sv));
}

} // verus!
