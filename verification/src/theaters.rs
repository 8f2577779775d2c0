//! Theaters as the site lists them: one entry per normalized name,
//! grouped by chain and ordered for display.
use crate::models::{copy_opt, opt_view};
use crate::static_site::{chain_of, get_theater_chain, normalize_theater_name, normalized_name};
use crate::text::{chars_eq, chars_eq_str, chars_of, lowercase};
use vstd::prelude::*;
use vstd::string::StringExecFns;

verus! {

/// A theater row as stored: database id, name and website.
#[derive(Debug)]
pub struct RawTheater {
    pub id: i64,
    pub name: String,
    pub url: Option<String>,
}

pub struct RawTheaterV {
    pub id: i64,
    pub name: Seq<char>,
    pub url: Option<Seq<char>>,
}

impl View for RawTheater {
    type V = RawTheaterV;

    open spec fn view(&self) -> RawTheaterV {
        RawTheaterV { id: self.id, name: self.name@, url: opt_view(self.url) }
    }
}

/// Theater data for filtering (deduplicated).
#[derive(Debug)]
pub struct TheaterInfo {
    /// Normalized name used as the unique key
    pub normalized_name: String,
    /// Display name (best version from sources)
    pub display_name: String,
    /// URL to theater website
    pub url: Option<String>,
    /// Theater chain or group
    pub chain: String,
    /// All database IDs that map to this theater
    pub db_ids: Vec<i64>,
}

pub struct TheaterInfoV {
    pub normalized_name: Seq<char>,
    pub display_name: Seq<char>,
    pub url: Option<Seq<char>>,
    pub chain: Seq<char>,
    pub db_ids: Seq<i64>,
}

impl View for TheaterInfo {
    type V = TheaterInfoV;

    open spec fn view(&self) -> TheaterInfoV {
        TheaterInfoV {
            normalized_name: self.normalized_name@,
            display_name: self.display_name@,
            url: opt_view(self.url),
            chain: self.chain@,
            db_ids: self.db_ids@,
        }
    }
}

/// Bytes taken by a character in UTF-8 (`char::len_utf8`).
pub open spec fn utf8_width(c: char) -> nat {
    if (c as u32) < 0x80 {
        1
    } else if (c as u32) < 0x800 {
        2
    } else if (c as u32) < 0x10000 {
        3
    } else {
        4
    }
}

/// The views of a sequence of theater entries.
pub open spec fn info_views(s: Seq<TheaterInfo>) -> Seq<TheaterInfoV> {
    s.map_values(|g: TheaterInfo| g@)
}

/// Length in bytes of the UTF-8 encoding (`str::len`).
pub open spec fn byte_len(s: Seq<char>) -> nat
    decreases s.len(),
{
    if s.len() == 0 {
        0
    } else {
        byte_len(s.drop_last()) + utf8_width(s.last())
    }
}

/// `str::len` of a string: the length of its UTF-8 encoding.
pub fn utf8_len(s: &str) -> (r: u128)
    ensures
        r == byte_len(s@),
{
    let v = chars_of(s);
    let mut total: u128 = 0;
    let mut i: usize = 0;
    while i < v.len()
        invariant
            i <= v.len(),
            v@ == s@,
            total == byte_len(v@.take(i as int)),
            total <= 4 * i,
        decreases v.len() - i,
    {
        let c = v[i];
        let w: u128 = if (c as u32) < 0x80 {
            1
        } else if (c as u32) < 0x800 {
            2
        } else if (c as u32) < 0x10000 {
            3
        } else {
            4
        };
        assert(v@.take(i as int + 1).drop_last() =~= v@.take(i as int));
        total = total + w;
        i = i + 1;
    }
    assert(v@.take(v.len() as int) =~= v@);
    total
}

pub open spec fn key_of(r: RawTheaterV) -> Seq<char> {
    normalized_name(r.name)
}

/// The rows whose names normalize to `key`, in the order given.
pub open spec fn members(raws: Seq<RawTheaterV>, key: Seq<char>) -> Seq<RawTheaterV>
    decreases raws.len(),
{
    if raws.len() == 0 {
        Seq::empty()
    } else if key_of(raws.last()) == key {
        members(raws.drop_last(), key).push(raws.last())
    } else {
        members(raws.drop_last(), key)
    }
}

/// The first of the longest names (by byte length).
pub open spec fn longest_name(m: Seq<RawTheaterV>) -> Seq<char>
    decreases m.len(),
{
    if m.len() == 0 {
        Seq::empty()
    } else if m.len() == 1 {
        m[0].name
    } else {
        let b = longest_name(m.drop_last());
        if byte_len(m.last().name) > byte_len(b) {
            m.last().name
        } else {
            b
        }
    }
}

/// The first website given.
pub open spec fn first_url(m: Seq<RawTheaterV>) -> Option<Seq<char>>
    decreases m.len(),
{
    if m.len() == 0 {
        None
    } else if m.len() == 1 {
        m[0].url
    } else {
        let u = first_url(m.drop_last());
        if u is None {
            m.last().url
        } else {
            u
        }
    }
}

/// The entry for one normalized name: the longest name for display, the
/// first website given, the chain of the first row, and all row ids.
pub open spec fn group_summary(raws: Seq<RawTheaterV>, key: Seq<char>) -> TheaterInfoV {
    let m = members(raws, key);
    TheaterInfoV {
        normalized_name: key,
        display_name: longest_name(m),
        url: first_url(m),
        chain: chain_of(lowercase(m[0].name)),
        db_ids: m.map_values(|r: RawTheaterV| r.id),
    }
}

/// Position of a chain in the listing.
pub open spec fn chain_rank(chain: Seq<char>) -> int {
    if chain == "Yorck Kinos"@ {
        0
    } else if chain == "CineStar"@ {
        1
    } else if chain == "UCI"@ {
        2
    } else if chain == "CinemaxX"@ {
        3
    } else if chain == "Cineplex"@ {
        4
    } else if chain == "CineMotion"@ {
        5
    } else if chain == "Independent Cinemas"@ {
        6
    } else {
        7
    }
}

/// Lexicographic order on characters (the order of `str` comparison).
pub open spec fn lex_lt(a: Seq<char>, b: Seq<char>) -> bool
    decreases a.len(),
{
    if a.len() == 0 {
        b.len() > 0
    } else if b.len() == 0 {
        false
    } else if a[0] != b[0] {
        a[0] < b[0]
    } else {
        lex_lt(a.drop_first(), b.drop_first())
    }
}

/// Listing order: by chain, then by display name.
pub open spec fn listed_before(a: TheaterInfoV, b: TheaterInfoV) -> bool {
    chain_rank(a.chain) < chain_rank(b.chain) || (chain_rank(a.chain) == chain_rank(b.chain)
        && lex_lt(a.display_name, b.display_name))
}

pub proof fn lemma_lex_irreflexive(a: Seq<char>)
    ensures
        !lex_lt(a, a),
    decreases a.len(),
{
    if a.len() > 0 {
        lemma_lex_irreflexive(a.drop_first());
    }
}

pub proof fn lemma_lex_transitive(a: Seq<char>, b: Seq<char>, c: Seq<char>)
    requires
        lex_lt(a, b),
        lex_lt(b, c),
    ensures
        lex_lt(a, c),
    decreases a.len(),
{
    if a.len() > 0 && b.len() > 0 && c.len() > 0 && a[0] == b[0] && b[0] == c[0] {
        lemma_lex_transitive(a.drop_first(), b.drop_first(), c.drop_first());
    }
}

pub proof fn lemma_lex_total(a: Seq<char>, b: Seq<char>)
    requires
        a != b,
    ensures
        lex_lt(a, b) || lex_lt(b, a),
    decreases a.len(),
{
    if a.len() == 0 && b.len() == 0 {
        assert(a =~= b);
    } else if a.len() > 0 && b.len() > 0 && a[0] == b[0] {
        if a.drop_first() == b.drop_first() {
            assert(a =~= seq![a[0]] + a.drop_first());
            assert(b =~= seq![b[0]] + b.drop_first());
        } else {
            lemma_lex_total(a.drop_first(), b.drop_first());
        }
    }
}

pub proof fn lemma_lex_asymmetric(a: Seq<char>, b: Seq<char>)
    requires
        lex_lt(a, b),
    ensures
        !lex_lt(b, a),
    decreases a.len(),
{
    if a.len() > 0 && b.len() > 0 && a[0] == b[0] {
        lemma_lex_asymmetric(a.drop_first(), b.drop_first());
    }
}

proof fn lemma_members_all_key(raws: Seq<RawTheaterV>, key: Seq<char>)
    ensures
        forall|i: int| 0 <= i < members(raws, key).len() ==> key_of(#[trigger] members(raws, key)[i]) == key,
    decreases raws.len(),
{
    if raws.len() > 0 {
        lemma_members_all_key(raws.drop_last(), key);
        let m = members(raws.drop_last(), key);
        if key_of(raws.last()) == key {
            assert forall|i: int| 0 <= i < m.push(raws.last()).len() implies key_of(
                #[trigger] m.push(raws.last())[i],
            ) == key by {
                if i < m.len() {
                    assert(m.push(raws.last())[i] == m[i]);
                }
            }
        }
    }
}

proof fn lemma_members_empty(raws: Seq<RawTheaterV>, key: Seq<char>)
    requires
        forall|i: int| 0 <= i < raws.len() ==> key_of(#[trigger] raws[i]) != key,
    ensures
        members(raws, key).len() == 0,
    decreases raws.len(),
{
    if raws.len() > 0 {
        lemma_members_empty(raws.drop_last(), key);
    }
}

proof fn lemma_longest_is_member(m: Seq<RawTheaterV>)
    requires
        m.len() > 0,
    ensures
        exists|i: int| 0 <= i < m.len() && #[trigger] m[i].name == longest_name(m),
    decreases m.len(),
{
    if m.len() == 1 {
        assert(m[0].name == longest_name(m));
    } else {
        lemma_longest_is_member(m.drop_last());
        let i = choose|i: int| 0 <= i < m.drop_last().len() && #[trigger] m.drop_last()[i].name
            == longest_name(m.drop_last());
        if byte_len(m.last().name) > byte_len(longest_name(m.drop_last())) {
            assert(m[m.len() - 1].name == longest_name(m));
        } else {
            assert(m[i].name == longest_name(m));
        }
    }
}

/// The display name of a group normalizes to the group's key.
proof fn lemma_display_key(raws: Seq<RawTheaterV>, key: Seq<char>)
    requires
        members(raws, key).len() > 0,
    ensures
        normalized_name(group_summary(raws, key).display_name) == key,
{
    let m = members(raws, key);
    lemma_longest_is_member(m);
    lemma_members_all_key(raws, key);
    let i = choose|i: int| 0 <= i < m.len() && #[trigger] m[i].name == longest_name(m);
    assert(key_of(m[i]) == key);
}

/// The entries are exactly the normalized names of the rows, each once,
/// and each entry summarizes the rows of its name.
pub open spec fn groups_summarize(gv: Seq<TheaterInfoV>, rv: Seq<RawTheaterV>) -> bool {
    &&& forall|j: int| 0 <= j < gv.len() ==> members(rv, (#[trigger] gv[j]).normalized_name).len() > 0
        && gv[j] == group_summary(rv, gv[j].normalized_name)
    &&& forall|i: int| 0 <= i < rv.len() ==> exists|jj: int| 0 <= jj < gv.len()
        && (#[trigger] gv[jj]).normalized_name == key_of(#[trigger] rv[i])
    &&& forall|a: int, b: int| 0 <= a < b < gv.len() ==> (#[trigger] gv[a]).normalized_name
        != (#[trigger] gv[b]).normalized_name
}

/// The position of the entry with normalized name `key`, if there is one.
fn find_group(groups: &Vec<TheaterInfo>, key: &Vec<char>) -> (r: Option<usize>)
    ensures
        match r {
            Some(j) => j < groups.len() && groups@[j as int]@.normalized_name == key@,
            None => forall|jj: int| 0 <= jj < groups.len() ==> (#[trigger] groups@[jj])@.normalized_name != key@,
        },
{
    let mut i: usize = 0;
    while i < groups.len()
        invariant
            i <= groups.len(),
            forall|jj: int| 0 <= jj < i ==> (#[trigger] groups@[jj])@.normalized_name != key@,
        decreases groups.len() - i,
    {
        let name = chars_of(groups[i].normalized_name.as_str());
        if chars_eq(&name, key) {
            return Some(i);
        }
        i = i + 1;
    }
    None
}

proof fn lemma_members_push(prev: Seq<RawTheaterV>, x: RawTheaterV)
    ensures
        forall|kk: Seq<char>| #[trigger] members(prev.push(x), kk) == (if key_of(x) == kk {
            members(prev, kk).push(x)
        } else {
            members(prev, kk)
        }),
{
    assert(prev.push(x).drop_last() =~= prev);
}

proof fn lemma_add_to_existing(gv: Seq<TheaterInfoV>, prev: Seq<RawTheaterV>, x: RawTheaterV, j: int, g: TheaterInfoV)
    requires
        groups_summarize(gv, prev),
        0 <= j < gv.len(),
        gv[j].normalized_name == key_of(x),
        g == group_summary(prev.push(x), key_of(x)),
    ensures
        groups_summarize(gv.update(j, g), prev.push(x)),
{
    lemma_members_push(prev, x);
    let next = prev.push(x);
    let ngv = gv.update(j, g);
    assert forall|jj: int| 0 <= jj < ngv.len() implies #[trigger] ngv[jj] == group_summary(next, ngv[jj].normalized_name) && members(next, ngv[jj].normalized_name).len() > 0 by {
        if jj != j {
            assert(ngv[jj] == gv[jj]);
            assert(gv[jj].normalized_name != gv[j].normalized_name);
            assert(members(next, gv[jj].normalized_name) == members(prev, gv[jj].normalized_name));
        } else {
            assert(members(next, key_of(x)) == members(prev, key_of(x)).push(x));
        }
    }
    assert forall|i: int| 0 <= i < next.len() implies exists|jj: int| 0 <= jj < ngv.len() && (#[trigger] ngv[jj]).normalized_name == key_of(#[trigger] next[i]) by {
        if i < prev.len() {
            assert(next[i] == prev[i]);
            let jj = choose|jj: int| 0 <= jj < gv.len() && (#[trigger] gv[jj]).normalized_name == key_of(#[trigger] prev[i]);
            assert(ngv[jj].normalized_name == gv[jj].normalized_name);
        } else {
            assert(ngv[j].normalized_name == key_of(next[i]));
        }
    }
}

proof fn lemma_add_new(gv: Seq<TheaterInfoV>, prev: Seq<RawTheaterV>, x: RawTheaterV, g: TheaterInfoV)
    requires
        groups_summarize(gv, prev),
        forall|j: int| 0 <= j < gv.len() ==> (#[trigger] gv[j]).normalized_name != key_of(x),
        g == group_summary(prev.push(x), key_of(x)),
    ensures
        groups_summarize(gv.push(g), prev.push(x)),
        members(prev, key_of(x)).len() == 0,
{
    lemma_members_push(prev, x);
    let next = prev.push(x);
    let ngv = gv.push(g);
    assert forall|i: int| 0 <= i < prev.len() implies key_of(#[trigger] prev[i]) != key_of(x) by {
        let jj = choose|jj: int| 0 <= jj < gv.len() && (#[trigger] gv[jj]).normalized_name == key_of(#[trigger] prev[i]);
    }
    lemma_members_empty(prev, key_of(x));
    assert forall|jj: int| 0 <= jj < ngv.len() implies #[trigger] ngv[jj] == group_summary(next, ngv[jj].normalized_name) && members(next, ngv[jj].normalized_name).len() > 0 by {
        if jj < gv.len() {
            assert(ngv[jj] == gv[jj]);
            assert(members(next, gv[jj].normalized_name) == members(prev, gv[jj].normalized_name));
        } else {
            assert(members(next, key_of(x)) == members(prev, key_of(x)).push(x));
        }
    }
    assert forall|i: int| 0 <= i < next.len() implies exists|jj: int| 0 <= jj < ngv.len() && (#[trigger] ngv[jj]).normalized_name == key_of(#[trigger] next[i]) by {
        if i < prev.len() {
            assert(next[i] == prev[i]);
            let jj = choose|jj: int| 0 <= jj < gv.len() && (#[trigger] gv[jj]).normalized_name == key_of(#[trigger] prev[i]);
            assert(ngv[jj].normalized_name == gv[jj].normalized_name);
        } else {
            assert(ngv[gv.len() as int].normalized_name == key_of(next[i]));
        }
    }
}

/// The group of `key` after one more row with that key.
fn extend_group(g: TheaterInfo, raw: &RawTheater, Ghost(prev): Ghost<Seq<RawTheaterV>>) -> (r: TheaterInfo)
    requires
        members(prev, g@.normalized_name).len() > 0,
        g@ == group_summary(prev, g@.normalized_name),
        key_of(raw@) == g@.normalized_name,
    ensures
        r@ == group_summary(prev.push(raw@), g@.normalized_name),
{
    let ghost key = g@.normalized_name;
    let mut g = g;
    g.db_ids.push(raw.id);
    if g.url.is_none() && raw.url.is_some() {
        g.url = copy_opt(&raw.url);
    }
    if utf8_len(raw.name.as_str()) > utf8_len(g.display_name.as_str()) {
        g.display_name = raw.name.clone();
    }
    proof {
        let m = members(prev, key);
        assert(prev.push(raw@).drop_last() =~= prev);
        assert(members(prev.push(raw@), key) == m.push(raw@));
        assert(m.push(raw@).drop_last() =~= m);
        assert(m.push(raw@)[0] == m[0]);
        assert(m.push(raw@).map_values(|r: RawTheaterV| r.id) =~= m.map_values(
            |r: RawTheaterV| r.id,
        ).push(raw.id));
    }
    g
}

/// The group started by a row whose key no earlier row had.
fn new_group(raw: &RawTheater, key: String, Ghost(prev): Ghost<Seq<RawTheaterV>>) -> (r: TheaterInfo)
    requires
        key@ == key_of(raw@),
        members(prev, key@).len() == 0,
    ensures
        r@ == group_summary(prev.push(raw@), key@),
{
    let chain = get_theater_chain(raw.name.as_str());
    let mut ids: Vec<i64> = Vec::new();
    ids.push(raw.id);
    let g = TheaterInfo {
        normalized_name: key,
        display_name: raw.name.clone(),
        url: copy_opt(&raw.url),
        chain: String::from_str(chain),
        db_ids: ids,
    };
    proof {
        assert(prev.push(raw@).drop_last() =~= prev);
        let m = members(prev.push(raw@), key@);
        assert(m =~= seq![raw@]);
        assert(m.map_values(|r: RawTheaterV| r.id) =~= seq![raw.id]);
    }
    g
}

/// Adds one theater row to the groups.
fn add_row(groups: &mut Vec<TheaterInfo>, raw: &RawTheater, Ghost(prev): Ghost<Seq<RawTheaterV>>)
    requires
        groups_summarize(info_views(old(groups)@), prev),
    ensures
        groups_summarize(info_views(final(groups)@), prev.push(raw@)),
{
    let ghost gv = info_views(groups@);
    let key = normalize_theater_name(raw.name.as_str());
    let keyv = chars_of(key.as_str());
    match find_group(groups, &keyv) {
        Some(j) => {
            let g = groups.remove(j);
            proof {
                assert(gv[j as int] == g@);
            }
            let g = extend_group(g, raw, Ghost(prev));
            groups.insert(j, g);
            proof {
                assert(info_views(groups@) =~= gv.update(j as int, g@));
                lemma_add_to_existing(gv, prev, raw@, j as int, g@);
            }
        },
        None => {
            proof {
                assert forall|jj: int| 0 <= jj < gv.len() implies (#[trigger] gv[jj]).normalized_name != key_of(raw@) by {
                    assert(gv[jj] == groups@[jj]@);
                }
                lemma_add_new_empty(gv, prev, raw@);
            }
            let g = new_group(raw, key, Ghost(prev));
            groups.push(g);
            proof {
                assert(info_views(groups@) =~= gv.push(g@));
                lemma_add_new(gv, prev, raw@, g@);
            }
        },
    }
}

proof fn lemma_add_new_empty(gv: Seq<TheaterInfoV>, prev: Seq<RawTheaterV>, x: RawTheaterV)
    requires
        groups_summarize(gv, prev),
        forall|j: int| 0 <= j < gv.len() ==> (#[trigger] gv[j]).normalized_name != key_of(x),
    ensures
        members(prev, key_of(x)).len() == 0,
{
    assert forall|i: int| 0 <= i < prev.len() implies key_of(#[trigger] prev[i]) != key_of(x) by {
        let jj = choose|jj: int| 0 <= jj < gv.len() && (#[trigger] gv[jj]).normalized_name == key_of(#[trigger] prev[i]);
    }
    lemma_members_empty(prev, key_of(x));
}

/// Groups theater rows by normalized name, in order of first appearance.
fn collect_groups(raws: &Vec<RawTheater>) -> (groups: Vec<TheaterInfo>)
    ensures
        groups_summarize(info_views(groups@), raws@.map_values(|r: RawTheater| r@)),
{
    let ghost rv = raws@.map_values(|r: RawTheater| r@);
    let mut groups: Vec<TheaterInfo> = Vec::new();
    let mut k: usize = 0;
    assert(info_views(groups@) =~= Seq::<TheaterInfoV>::empty());
    while k < raws.len()
        invariant
            k <= raws.len(),
            rv == raws@.map_values(|r: RawTheater| r@),
            groups_summarize(info_views(groups@), rv.take(k as int)),
        decreases raws.len() - k,
    {
        assert(rv.take(k + 1) =~= rv.take(k as int).push(raws@[k as int]@));
        add_row(&mut groups, &raws[k], Ghost(rv.take(k as int)));
        k = k + 1;
    }
    assert(rv.take(raws.len() as int) =~= rv);
    groups
}


proof fn lemma_before_irreflexive(a: TheaterInfoV)
    ensures
        !listed_before(a, a),
{
    lemma_lex_irreflexive(a.display_name);
}

proof fn lemma_before_transitive(a: TheaterInfoV, b: TheaterInfoV, c: TheaterInfoV)
    requires
        listed_before(a, b),
        listed_before(b, c),
    ensures
        listed_before(a, c),
{
    if chain_rank(a.chain) == chain_rank(b.chain) && chain_rank(b.chain) == chain_rank(c.chain) {
        lemma_lex_transitive(a.display_name, b.display_name, c.display_name);
    }
}

/// Non-strictly ordered for listing.
pub open spec fn listing_sorted(s: Seq<TheaterInfoV>) -> bool {
    forall|a: int, b: int| 0 <= a < b < s.len() ==> !listed_before(#[trigger] s[b], #[trigger] s[a])
}

fn is_listed_before(a: &TheaterInfo, b: &TheaterInfo) -> (r: bool)
    ensures
        r == listed_before(a@, b@),
{
    let ra = chain_rank_exec(a.chain.as_str());
    let rb = chain_rank_exec(b.chain.as_str());
    if ra < rb {
        true
    } else if ra > rb {
        false
    } else {
        let da = chars_of(a.display_name.as_str());
        let db = chars_of(b.display_name.as_str());
        lex_lt_exec(&da, &db)
    }
}

fn chain_rank_exec(chain: &str) -> (r: u8)
    ensures
        r as int == chain_rank(chain@),
{
    let c = chars_of(chain);
    if chars_eq_str(&c, "Yorck Kinos") {
        0
    } else if chars_eq_str(&c, "CineStar") {
        1
    } else if chars_eq_str(&c, "UCI") {
        2
    } else if chars_eq_str(&c, "CinemaxX") {
        3
    } else if chars_eq_str(&c, "Cineplex") {
        4
    } else if chars_eq_str(&c, "CineMotion") {
        5
    } else if chars_eq_str(&c, "Independent Cinemas") {
        6
    } else {
        7
    }
}

proof fn lemma_lex_skip(a: Seq<char>, b: Seq<char>, i: int)
    requires
        0 <= i <= a.len(),
        i <= b.len(),
        a.take(i) == b.take(i),
    ensures
        lex_lt(a, b) == lex_lt(a.skip(i), b.skip(i)),
    decreases i,
{
    if i > 0 {
        assert(a[0] == a.take(i)[0]);
        assert(b[0] == b.take(i)[0]);
        assert(a.drop_first().take(i - 1) =~= a.take(i).drop_first());
        assert(b.drop_first().take(i - 1) =~= b.take(i).drop_first());
        lemma_lex_skip(a.drop_first(), b.drop_first(), i - 1);
        assert(a.drop_first().skip(i - 1) =~= a.skip(i));
        assert(b.drop_first().skip(i - 1) =~= b.skip(i));
    } else {
        assert(a.skip(0) =~= a);
        assert(b.skip(0) =~= b);
    }
}

/// Lexicographic comparison of character vectors.
pub fn lex_lt_exec(a: &Vec<char>, b: &Vec<char>) -> (r: bool)
    ensures
        r == lex_lt(a@, b@),
{
    let mut i: usize = 0;
    while i < a.len() && i < b.len()
        invariant
            i <= a.len(),
            i <= b.len(),
            a@.take(i as int) == b@.take(i as int),
        decreases a.len() - i,
    {
        if a[i] != b[i] {
            proof {
                lemma_lex_skip(a@, b@, i as int);
            }
            return a[i] < b[i];
        }
        assert(a@.take(i + 1) =~= a@.take(i as int).push(a@[i as int]));
        assert(b@.take(i + 1) =~= b@.take(i as int).push(b@[i as int]));
        i = i + 1;
    }
    proof {
        lemma_lex_skip(a@, b@, i as int);
    }
    i == a.len() && i < b.len()
}

/// Inserts `x` after every entry it is not listed before.
fn insert_sorted(out: &mut Vec<TheaterInfo>, x: TheaterInfo) -> (p: usize)
    requires
        listing_sorted(info_views(old(out)@)),
    ensures
        listing_sorted(info_views(final(out)@)),
        p <= old(out).len(),
        info_views(final(out)@) == info_views(old(out)@).insert(p as int, x@),
{
    let ghost ov = info_views(out@);
    let mut p: usize = 0;
    while p < out.len() && !is_listed_before(&x, &out[p])
        invariant
            p <= out.len(),
            ov == info_views(out@),
            forall|q: int| 0 <= q < p ==> !listed_before(x@, #[trigger] ov[q]),
        decreases out.len() - p,
    {
        p = p + 1;
    }
    let ghost xv = x@;
    out.insert(p, x);
    proof {
        let nv = info_views(out@);
        assert(nv =~= ov.insert(p as int, xv));
        assert forall|a: int, b: int| 0 <= a < b < nv.len() implies !listed_before(#[trigger] nv[b], #[trigger] nv[a]) by {
            if b < p {
                assert(nv[a] == ov[a] && nv[b] == ov[b]);
            } else if b == p {
                assert(nv[b] == xv && nv[a] == ov[a]);
            } else if a < p {
                assert(nv[a] == ov[a] && nv[b] == ov[b - 1]);
            } else if a == p {
                assert(nv[a] == xv && nv[b] == ov[b - 1]);
                assert(listed_before(xv, ov[p as int]));
                if listed_before(ov[b - 1], xv) {
                    lemma_before_transitive(ov[b - 1], xv, ov[p as int]);
                    if b - 1 == p {
                        lemma_before_irreflexive(ov[p as int]);
                    }
                }
            } else {
                assert(nv[a] == ov[a - 1] && nv[b] == ov[b - 1]);
            }
        }
    }
    p
}

/// The sort's bookkeeping: `ov` holds exactly the entries `all[n..]`.
pub open spec fn holds_suffix(ov: Seq<TheaterInfoV>, all: Seq<TheaterInfoV>, n: int) -> bool {
    &&& ov.len() + n == all.len()
    &&& forall|i: int| 0 <= i < ov.len() ==> exists|k: int| n <= k < all.len() && #[trigger] ov[i] == all[k]
    &&& forall|k: int| n <= k < all.len() ==> exists|i: int| 0 <= i < ov.len() && ov[i] == #[trigger] all[k]
}

#[verifier::opaque]
pub open spec fn summarized_by(all: Seq<TheaterInfoV>, rv: Seq<RawTheaterV>) -> bool {
    groups_summarize(all, rv)
}

proof fn lemma_sort_step_members(all: Seq<TheaterInfoV>, ov: Seq<TheaterInfoV>, n: int, p: int)
    requires
        1 <= n <= all.len(),
        holds_suffix(ov, all, n),
        0 <= p <= ov.len(),
    ensures
        holds_suffix(ov.insert(p, all[n - 1]), all, n - 1),
{
    let nv = ov.insert(p, all[n - 1]);
    assert forall|i: int| 0 <= i < nv.len() implies exists|k: int| n - 1 <= k < all.len() && #[trigger] nv[i] == all[k] by {
        if i < p {
            assert(nv[i] == ov[i]);
            let k = choose|k: int| n <= k < all.len() && #[trigger] ov[i] == all[k];
        } else if i == p {
            assert(nv[i] == all[n - 1]);
        } else {
            assert(nv[i] == ov[i - 1]);
            let k = choose|k: int| n <= k < all.len() && #[trigger] ov[i - 1] == all[k];
        }
    }
    assert forall|k: int| n - 1 <= k < all.len() implies exists|i: int| 0 <= i < nv.len() && nv[i] == #[trigger] all[k] by {
        if k == n - 1 {
            assert(nv[p] == all[k]);
        } else {
            let i = choose|i: int| 0 <= i < ov.len() && ov[i] == #[trigger] all[k];
            if i < p {
                assert(nv[i] == ov[i]);
            } else {
                assert(nv[i + 1] == ov[i]);
            }
        }
    }
}

/// The entry taken next has a key that no entry already placed has.
proof fn lemma_sort_step_fresh(all: Seq<TheaterInfoV>, ov: Seq<TheaterInfoV>, n: int)
    requires
        distinct_keys(all),
        1 <= n <= all.len(),
        holds_suffix(ov, all, n),
    ensures
        forall|i: int| 0 <= i < ov.len() ==> (#[trigger] ov[i]).normalized_name != all[n - 1].normalized_name,
{
    assert forall|i: int| 0 <= i < ov.len() implies (#[trigger] ov[i]).normalized_name != all[n - 1].normalized_name by {
        let k = choose|k: int| n <= k < all.len() && #[trigger] ov[i] == all[k];
        assert(all[n - 1].normalized_name != all[k].normalized_name);
    }
}

/// Inserting an entry with a fresh key keeps the keys distinct.
proof fn lemma_sort_step_distinct(ov: Seq<TheaterInfoV>, x: TheaterInfoV, p: int)
    requires
        distinct_keys(ov),
        forall|i: int| 0 <= i < ov.len() ==> (#[trigger] ov[i]).normalized_name != x.normalized_name,
        0 <= p <= ov.len(),
    ensures
        distinct_keys(ov.insert(p, x)),
{
    let nv = ov.insert(p, x);
    assert forall|a: int, b: int| 0 <= a < b < nv.len() implies (#[trigger] nv[a]).normalized_name != (#[trigger] nv[b]).normalized_name by {
        if a != p && b != p {
            let ia = if a < p { a } else { a - 1 };
            let ib = if b < p { b } else { b - 1 };
            assert(nv[a] == ov[ia] && nv[b] == ov[ib]);
        } else if a == p {
            assert(nv[b] == ov[b - 1]);
        } else {
            assert(nv[a] == ov[a]);
        }
    }
}

/// Groups theater rows by normalized name and orders the groups by chain
/// (Yorck Kinos, CineStar, UCI, CinemaxX, Cineplex, CineMotion,
/// Independent Cinemas) and then by display name.
///
/// Every row lands in the one entry of its normalized name; each entry
/// carries all its rows' ids in row order, the first of the longest row
/// names, the first website given, and the chain of its first row.
pub fn group_theaters(raws: &Vec<RawTheater>) -> (r: Vec<TheaterInfo>)
    ensures
        groups_summarize(info_views(r@), raws@.map_values(|x: RawTheater| x@)),
        forall|a: int, b: int| 0 <= a < b < r.len() ==> listed_before(#[trigger] info_views(r@)[a], #[trigger] info_views(r@)[b]),
{
    let ghost rv = raws@.map_values(|x: RawTheater| x@);
    let mut groups = collect_groups(raws);
    let ghost all = info_views(groups@);
    let mut out: Vec<TheaterInfo> = Vec::new();
    proof {
        assert(info_views(out@) =~= Seq::<TheaterInfoV>::empty());
        assert(all.take(groups.len() as int) =~= all);
        reveal(summarized_by);
        assert(distinct_keys(all));
    }
    while groups.len() > 0
        invariant
            summarized_by(all, rv),
            distinct_keys(all),
            info_views(groups@) == all.take(groups.len() as int),
            groups.len() <= all.len(),
            listing_sorted(info_views(out@)),
            holds_suffix(info_views(out@), all, groups.len() as int),
            distinct_keys(info_views(out@)),
        decreases groups.len(),
    {
        let ghost ov = info_views(out@);
        let ghost n = groups.len() as int;
        let x = groups.pop().unwrap();
        proof {
            assert(all.take(n)[n - 1] == x@);
            assert(info_views(groups@) =~= all.take(n - 1));
        }
        let pos = insert_sorted(&mut out, x);
        proof {
            lemma_sort_step_members(all, ov, n, pos as int);
            lemma_sort_step_fresh(all, ov, n);
            lemma_sort_step_distinct(ov, all[n - 1], pos as int);
        }
    }
    proof {
        reveal(summarized_by);
        lemma_sorted_result(all, info_views(out@), rv);
    }
    out
}

/// No two entries share a normalized name.
pub open spec fn distinct_keys(s: Seq<TheaterInfoV>) -> bool {
    forall|a: int, b: int| 0 <= a < b < s.len() ==> (#[trigger] s[a]).normalized_name != (#[trigger] s[b]).normalized_name
}

proof fn lemma_sorted_result(all: Seq<TheaterInfoV>, ov: Seq<TheaterInfoV>, rv: Seq<RawTheaterV>)
    requires
        groups_summarize(all, rv),
        listing_sorted(ov),
        distinct_keys(ov),
        holds_suffix(ov, all, 0),
    ensures
        groups_summarize(ov, rv),
        forall|a: int, b: int| 0 <= a < b < ov.len() ==> listed_before(#[trigger] ov[a], #[trigger] ov[b]),
{
    assert forall|j: int| 0 <= j < ov.len() implies members(rv, (#[trigger] ov[j]).normalized_name).len() > 0 && ov[j] == group_summary(rv, ov[j].normalized_name) by {
        let k = choose|k: int| 0 <= k < all.len() && ov[j] == all[k];
        assert(all[k] == group_summary(rv, all[k].normalized_name));
    }
    assert forall|a: int, b: int| 0 <= a < b < ov.len() implies (#[trigger] ov[a]).normalized_name != (#[trigger] ov[b]).normalized_name && listed_before(ov[a], ov[b]) by {
        let ka = choose|k: int| 0 <= k < all.len() && ov[a] == all[k];
        let kb = choose|k: int| 0 <= k < all.len() && ov[b] == all[k];
        assert(members(rv, all[ka].normalized_name).len() > 0);
        assert(members(rv, all[kb].normalized_name).len() > 0);
        lemma_display_key(rv, ov[a].normalized_name);
        lemma_display_key(rv, ov[b].normalized_name);
        assert(ov[a].display_name != ov[b].display_name);
        assert(!listed_before(ov[b], ov[a]));
        if chain_rank(ov[a].chain) == chain_rank(ov[b].chain) {
            lemma_lex_total(ov[a].display_name, ov[b].display_name);
        }
    }
    assert forall|i: int| 0 <= i < rv.len() implies exists|j: int| 0 <= j < ov.len() && (#[trigger] ov[j]).normalized_name == key_of(#[trigger] rv[i]) by {
        let k = choose|k: int| 0 <= k < all.len() && (#[trigger] all[k]).normalized_name == key_of(rv[i]);
        let j = choose|j: int| 0 <= j < ov.len() && ov[j] == all[k];
    }
}

} // verus!
