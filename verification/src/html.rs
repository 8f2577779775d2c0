//! Queries on HTML text, answered by the `scraper` crate.
//!
//! Each query parses its input as a document and selects with CSS
//! selectors.  A query inside an element names that element by the
//! selector that finds it in the document and its position among the
//! matches, so the inner selection runs on the element in place, with its
//! ancestors around it.
use crate::models::opt_view;
use scraper::{Html, Selector};
use vstd::prelude::*;

verus! {

/// The serialized HTML of each element of `html` that `css` selects, in
/// document order; empty when `css` is not a valid selector.
pub uninterp spec fn selected_html(html: Seq<char>, css: Seq<char>) -> Seq<Seq<char>>;

/// The value of attribute `name` of each element of `html` that `css`
/// selects, in document order.
pub uninterp spec fn selected_attr(html: Seq<char>, css: Seq<char>, name: Seq<char>) -> Seq<Option<Seq<char>>>;

/// The text (all descendant text nodes, concatenated) of each element that
/// `inner` selects inside the `k`-th element that `outer` selects in
/// `html`; empty when there is no such element.
pub uninterp spec fn selected_text_in(html: Seq<char>, outer: Seq<char>, k: int, inner: Seq<char>) -> Seq<Seq<char>>;

/// The value of attribute `name` of each element that `inner` selects
/// inside the `k`-th element that `outer` selects in `html`.
pub uninterp spec fn selected_attr_in(html: Seq<char>, outer: Seq<char>, k: int, inner: Seq<char>, name: Seq<char>) -> Seq<Option<Seq<char>>>;

/// The texts of the elements that `inner` selects inside the first element
/// that `mid` selects inside the `k`-th element that `outer` selects.
pub uninterp spec fn selected_text_under(html: Seq<char>, outer: Seq<char>, k: int, mid: Seq<char>, inner: Seq<char>) -> Seq<Seq<char>>;

/// For each element that `rows` selects inside the first element that `mid`
/// selects inside the `k`-th element that `outer` selects, the texts of the
/// elements inside it that `cells` selects.
pub uninterp spec fn selected_cells_under(html: Seq<char>, outer: Seq<char>, k: int, mid: Seq<char>, rows: Seq<char>, cells: Seq<char>) -> Seq<Seq<Seq<char>>>;

pub open spec fn strings_view(v: Seq<String>) -> Seq<Seq<char>> {
    v.map_values(|s: String| s@)
}

pub open spec fn opts_view(v: Seq<Option<String>>) -> Seq<Option<Seq<char>>> {
    v.map_values(|o: Option<String>| opt_view(o))
}

/// The `i`-th entry of a list of attribute values; `None` past its end.
pub open spec fn attr_at(s: Seq<Option<Seq<char>>>, i: int) -> Option<Seq<char>> {
    if 0 <= i < s.len() {
        s[i]
    } else {
        None
    }
}

pub fn attr_at_exec(v: &Vec<Option<String>>, i: usize) -> (r: Option<String>)
    ensures
        opt_view(r) == attr_at(opts_view(v@), i as int),
{
    if i < v.len() {
        match &v[i] {
            Some(s) => Some(s.clone()),
            None => None,
        }
    } else {
        None
    }
}

/// `Html::parse_document(html).select(css)`, each element by `ElementRef::html`.
#[verifier::external_body]
pub(crate) fn select_html(html: &str, css: &str) -> (r: Vec<String>)
    ensures
        strings_view(r@) == selected_html(html@, css@),
{
    let doc = Html::parse_document(html);
    match Selector::parse(css) {
        Ok(sel) => doc.select(&sel).map(|e| e.html()).collect(),
        Err(_) => Vec::new(),
    }
}

/// `Html::parse_document(html).select(css)`, each element by `attr(name)`.
#[verifier::external_body]
pub(crate) fn select_attr(html: &str, css: &str, name: &str) -> (r: Vec<Option<String>>)
    ensures
        opts_view(r@) == selected_attr(html@, css@, name@),
{
    let doc = Html::parse_document(html);
    match Selector::parse(css) {
        Ok(sel) => doc.select(&sel).map(|e| e.attr(name).map(|a| a.to_string())).collect(),
        Err(_) => Vec::new(),
    }
}

/// The `k`-th element of `Html::parse_document(html).select(outer)`, then
/// its `select(inner)`, each element by its collected `text()`.
#[verifier::external_body]
pub(crate) fn select_text_in(html: &str, outer: &str, k: usize, inner: &str) -> (r: Vec<String>)
    ensures
        strings_view(r@) == selected_text_in(html@, outer@, k as int, inner@),
{
    let doc = Html::parse_document(html);
    match (Selector::parse(outer), Selector::parse(inner)) {
        (Ok(o), Ok(i)) => match doc.select(&o).nth(k) {
            Some(el) => el.select(&i).map(|e| e.text().collect()).collect(),
            None => Vec::new(),
        },
        _ => Vec::new(),
    }
}

/// The `k`-th element of `Html::parse_document(html).select(outer)`, then
/// its `select(inner)`, each element by `attr(name)`.
#[verifier::external_body]
pub(crate) fn select_attr_in(html: &str, outer: &str, k: usize, inner: &str, name: &str) -> (r: Vec<Option<String>>)
    ensures
        opts_view(r@) == selected_attr_in(html@, outer@, k as int, inner@, name@),
{
    let doc = Html::parse_document(html);
    match (Selector::parse(outer), Selector::parse(inner)) {
        (Ok(o), Ok(i)) => match doc.select(&o).nth(k) {
            Some(el) => el.select(&i).map(|e| e.attr(name).map(|a| a.to_string())).collect(),
            None => Vec::new(),
        },
        _ => Vec::new(),
    }
}

/// The `k`-th element of `Html::parse_document(html).select(outer)`, the
/// first element of its `select(mid)`, then that one's `select(inner)`,
/// each element by its collected `text()`.
#[verifier::external_body]
pub(crate) fn select_text_under(html: &str, outer: &str, k: usize, mid: &str, inner: &str) -> (r: Vec<String>)
    ensures
        strings_view(r@) == selected_text_under(html@, outer@, k as int, mid@, inner@),
{
    let doc = Html::parse_document(html);
    let (Ok(o), Ok(m), Ok(i)) = (Selector::parse(outer), Selector::parse(mid), Selector::parse(inner)) else {
        return Vec::new();
    };
    let Some(el) = doc.select(&o).nth(k) else {
        return Vec::new();
    };
    match el.select(&m).next() {
        Some(t) => t.select(&i).map(|e| e.text().collect()).collect(),
        None => Vec::new(),
    }
}

/// As `select_text_under`, but for each element of `select(rows)` the
/// collected `text()` of the elements of its `select(cells)`.
#[verifier::external_body]
pub(crate) fn select_cells_under(html: &str, outer: &str, k: usize, mid: &str, rows: &str, cells: &str) -> (r: Vec<Vec<String>>)
    ensures
        r@.map_values(|row: Vec<String>| strings_view(row@)) == selected_cells_under(html@, outer@, k as int, mid@, rows@, cells@),
{
    let doc = Html::parse_document(html);
    let (Ok(o), Ok(m), Ok(r), Ok(c)) = (Selector::parse(outer), Selector::parse(mid), Selector::parse(rows), Selector::parse(cells)) else {
        return Vec::new();
    };
    let Some(el) = doc.select(&o).nth(k) else {
        return Vec::new();
    };
    match el.select(&m).next() {
        Some(t) => t.select(&r).map(|row| row.select(&c).map(|e| e.text().collect()).collect()).collect(),
        None => Vec::new(),
    }
}

} // verus!
