//! Static website for browsing OV/OmU movies: theater name
//! normalisation, theater grouping, escaping and page assembly.
use vstd::prelude::*;
use crate::text::{
    ascii_uppercased, chars_eq_str, chars_of, collapse_whitespace, collapse_whitespace_chars, contains, contains_str,
    lemma_collapse_tidy, lemma_join_words_tidy, lemma_replace_all_char, lemma_replace_char_concat, lemma_replace_char_excludes, replace_char, lemma_trim_tidy, lemma_words_are_words, lowercase, tidy, words, lowercase_chars, replace_all, replace_in, string_of, to_lowercase, trim, trim_chars,
};
use vstd::string::StringExecFns;

verus! {

// ---------------------------------------------------------------------
// Escaping
// ---------------------------------------------------------------------

/// HTML escaping: `&`, `<`, `>`, `"` and `'` replaced by entities, in that order.
pub open spec fn html_escaped(s: Seq<char>) -> Seq<char> {
    let a = replace_all(s, "&"@, "&amp;"@);
    let b = replace_all(a, "<"@, "&lt;"@);
    let c = replace_all(b, ">"@, "&gt;"@);
    let d = replace_all(c, "\""@, "&quot;"@);
    replace_all(d, "'"@, "&#39;"@)
}

/// JSON string-content escaping of backslash, quote, newline, carriage
/// return and tab, in that order.
pub open spec fn json_escaped(s: Seq<char>) -> Seq<char> {
    let a = replace_all(s, "\\"@, "\\\\"@);
    let b = replace_all(a, "\""@, "\\\""@);
    let c = replace_all(b, "\n"@, "\\n"@);
    let d = replace_all(c, "\r"@, "\\r"@);
    replace_all(d, "\t"@, "\\t"@)
}

pub fn escape_html_chars(s: &Vec<char>) -> (r: Vec<char>)
    ensures
        r@ == html_escaped(s@),
{
    let a = replace_in(s, "&", "&amp;");
    let b = replace_in(&a, "<", "&lt;");
    let c = replace_in(&b, ">", "&gt;");
    let d = replace_in(&c, "\"", "&quot;");
    replace_in(&d, "'", "&#39;")
}

/// Escapes text for inclusion in HTML content or attribute values.
pub fn escape_html(s: &str) -> (r: String)
    ensures
        r@ == html_escaped(s@),
{
    let v = chars_of(s);
    let e = escape_html_chars(&v);
    string_of(&e)
}

pub fn escape_json_chars(s: &Vec<char>) -> (r: Vec<char>)
    ensures
        r@ == json_escaped(s@),
{
    let a = replace_in(s, "\\", "\\\\");
    let b = replace_in(&a, "\"", "\\\"");
    let c = replace_in(&b, "\n", "\\n");
    let d = replace_in(&c, "\r", "\\r");
    replace_in(&d, "\t", "\\t")
}

/// Escapes text for inclusion in a JSON string literal.
pub fn escape_json(s: &str) -> (r: String)
    ensures
        r@ == json_escaped(s@),
{
    let v = chars_of(s);
    let e = escape_json_chars(&v);
    string_of(&e)
}

/// Escaped HTML holds none of the characters that could open or close a
/// tag or an attribute value: `<`, `>`, `"` and `'`.
pub proof fn lemma_html_escaped_is_inert(s: Seq<char>)
    ensures
        !html_escaped(s).contains('<'),
        !html_escaped(s).contains('>'),
        !html_escaped(s).contains('"'),
        !html_escaped(s).contains('\''),
{
    reveal_strlit("&");
    reveal_strlit("&amp;");
    reveal_strlit("<");
    reveal_strlit("&lt;");
    reveal_strlit(">");
    reveal_strlit("&gt;");
    reveal_strlit("\"");
    reveal_strlit("&quot;");
    reveal_strlit("'");
    reveal_strlit("&#39;");
    let a = replace_all(s, "&"@, "&amp;"@);
    let b = replace_all(a, "<"@, "&lt;"@);
    let c = replace_all(b, ">"@, "&gt;"@);
    let d = replace_all(c, "\""@, "&quot;"@);
    assert("<"@ =~= seq!['<']);
    assert(">"@ =~= seq!['>']);
    assert("\""@ =~= seq!['"']);
    assert("'"@ =~= seq!['\'']);
    assert(!"&lt;"@.contains('<')) by {
        assert forall|k: int| 0 <= k < "&lt;"@.len() implies "&lt;"@[k] != '<' by {}
    }
    assert(!"&gt;"@.contains('<') && !"&gt;"@.contains('>')) by {
        assert forall|k: int| 0 <= k < "&gt;"@.len() implies "&gt;"@[k] != '<' && "&gt;"@[k] != '>' by {}
    }
    assert(!"&quot;"@.contains('<') && !"&quot;"@.contains('>') && !"&quot;"@.contains('"')) by {
        assert forall|k: int| 0 <= k < "&quot;"@.len() implies "&quot;"@[k] != '<' && "&quot;"@[k] != '>' && "&quot;"@[k] != '"' by {}
    }
    assert(!"&#39;"@.contains('<') && !"&#39;"@.contains('>') && !"&#39;"@.contains('"') && !"&#39;"@.contains('\'')) by {
        assert forall|k: int| 0 <= k < "&#39;"@.len() implies "&#39;"@[k] != '<' && "&#39;"@[k] != '>' && "&#39;"@[k] != '"' && "&#39;"@[k] != '\'' by {}
    }
    lemma_replace_char_excludes(a, '<', "&lt;"@, '<');
    lemma_replace_char_excludes(b, '>', "&gt;"@, '<');
    lemma_replace_char_excludes(b, '>', "&gt;"@, '>');
    lemma_replace_char_excludes(c, '"', "&quot;"@, '<');
    lemma_replace_char_excludes(c, '"', "&quot;"@, '>');
    lemma_replace_char_excludes(c, '"', "&quot;"@, '"');
    lemma_replace_char_excludes(d, '\'', "&#39;"@, '<');
    lemma_replace_char_excludes(d, '\'', "&#39;"@, '>');
    lemma_replace_char_excludes(d, '\'', "&#39;"@, '"');
    lemma_replace_char_excludes(d, '\'', "&#39;"@, '\'');
}

/// Escaped JSON text holds no raw line feed, carriage return or tab, so a
/// JSON string never breaks across lines.
pub proof fn lemma_json_escaped_single_line(s: Seq<char>)
    ensures
        !json_escaped(s).contains('\n'),
        !json_escaped(s).contains('\r'),
        !json_escaped(s).contains('\t'),
{
    reveal_strlit("\n");
    reveal_strlit("\\n");
    reveal_strlit("\r");
    reveal_strlit("\\r");
    reveal_strlit("\t");
    reveal_strlit("\\t");
    let a = replace_all(s, "\\"@, "\\\\"@);
    let b = replace_all(a, "\""@, "\\\""@);
    let c = replace_all(b, "\n"@, "\\n"@);
    let d = replace_all(c, "\r"@, "\\r"@);
    assert("\n"@ =~= seq!['\n']);
    assert("\r"@ =~= seq!['\r']);
    assert("\t"@ =~= seq!['\t']);
    assert(!"\\n"@.contains('\n')) by {
        assert forall|k: int| 0 <= k < "\\n"@.len() implies "\\n"@[k] != '\n' by {}
    }
    assert(!"\\r"@.contains('\n') && !"\\r"@.contains('\r')) by {
        assert forall|k: int| 0 <= k < "\\r"@.len() implies "\\r"@[k] != '\n' && "\\r"@[k] != '\r' by {}
    }
    assert(!"\\t"@.contains('\n') && !"\\t"@.contains('\r') && !"\\t"@.contains('\t')) by {
        assert forall|k: int| 0 <= k < "\\t"@.len() implies "\\t"@[k] != '\n' && "\\t"@[k] != '\r' && "\\t"@[k] != '\t' by {}
    }
    lemma_replace_char_excludes(b, '\n', "\\n"@, '\n');
    lemma_replace_char_excludes(c, '\r', "\\r"@, '\n');
    lemma_replace_char_excludes(c, '\r', "\\r"@, '\r');
    lemma_replace_char_excludes(d, '\t', "\\t"@, '\n');
    lemma_replace_char_excludes(d, '\t', "\\t"@, '\r');
    lemma_replace_char_excludes(d, '\t', "\\t"@, '\t');
}

/// How JSON escaping writes one character.
pub open spec fn json_escaped_char(c: char) -> Seq<char> {
    if c == '\\' {
        seq!['\\', '\\']
    } else if c == '"' {
        seq!['\\', '"']
    } else if c == '\n' {
        seq!['\\', 'n']
    } else if c == '\r' {
        seq!['\\', 'r']
    } else if c == '\t' {
        seq!['\\', 't']
    } else {
        seq![c]
    }
}

/// JSON escaping character by character.
pub open spec fn json_escaped_chars(s: Seq<char>) -> Seq<char>
    decreases s.len(),
{
    if s.len() == 0 {
        Seq::empty()
    } else {
        json_escaped_char(s[0]) + json_escaped_chars(s.drop_first())
    }
}

/// The value of a hexadecimal digit.
pub open spec fn hex_digit(c: char) -> Option<int> {
    if '0' <= c && c <= '9' {
        Some(c as int - '0' as int)
    } else if 'a' <= c && c <= 'f' {
        Some(c as int - 'a' as int + 10)
    } else if 'A' <= c && c <= 'F' {
        Some(c as int - 'A' as int + 10)
    } else {
        None
    }
}

/// The number written by the four hexadecimal digits at `t[i..i + 4]`.
pub open spec fn hex4(t: Seq<char>, i: int) -> Option<int> {
    if 0 <= i && i + 4 <= t.len() {
        match (hex_digit(t[i]), hex_digit(t[i + 1]), hex_digit(t[i + 2]), hex_digit(t[i + 3])) {
            (Some(a), Some(b), Some(c), Some(d)) => Some(a * 4096 + b * 256 + c * 16 + d),
            _ => None,
        }
    } else {
        None
    }
}

pub open spec fn prefixed(c: char, rest: Option<Seq<char>>) -> Option<Seq<char>> {
    match rest {
        Some(r) => Some(seq![c] + r),
        None => None,
    }
}

/// The text that a JSON string body (what stands between the quotes of a
/// JSON string, RFC 8259) denotes; `None` when it is not a valid body: an
/// unescaped quote or control character, an unknown escape, or a `\u`
/// escape that is not four hexadecimal digits or is an unpaired surrogate.
pub open spec fn json_string_body(t: Seq<char>) -> Option<Seq<char>>
    decreases t.len(),
{
    if t.len() == 0 {
        Some(Seq::empty())
    } else if t[0] == '\\' {
        if t.len() < 2 {
            None
        } else {
            let e = t[1];
            if e == '"' || e == '\\' || e == '/' {
                prefixed(e, json_string_body(t.skip(2)))
            } else if e == 'b' {
                prefixed('\u{8}', json_string_body(t.skip(2)))
            } else if e == 'f' {
                prefixed('\u{c}', json_string_body(t.skip(2)))
            } else if e == 'n' {
                prefixed('\n', json_string_body(t.skip(2)))
            } else if e == 'r' {
                prefixed('\r', json_string_body(t.skip(2)))
            } else if e == 't' {
                prefixed('\t', json_string_body(t.skip(2)))
            } else if e == 'u' {
                match hex4(t, 2) {
                    None => None,
                    Some(u) => if 0xDC00 <= u && u < 0xE000 {
                        None
                    } else if 0xD800 <= u && u < 0xDC00 {
                        if t.len() >= 12 && t[6] == '\\' && t[7] == 'u' {
                            match hex4(t, 8) {
                                Some(l) => if 0xDC00 <= l && l < 0xE000 {
                                    prefixed(
                                        (0x10000 + (u - 0xD800) * 0x400 + (l - 0xDC00)) as char,
                                        json_string_body(t.skip(12)),
                                    )
                                } else {
                                    None
                                },
                                None => None,
                            }
                        } else {
                            None
                        }
                    } else {
                        prefixed(u as char, json_string_body(t.skip(6)))
                    },
                }
            } else {
                None
            }
        }
    } else if t[0] == '"' || (t[0] as int) < 0x20 {
        None
    } else {
        prefixed(t[0], json_string_body(t.drop_first()))
    }
}

/// A character that JSON escaping leaves decodable: anything but a control
/// character other than line feed, carriage return and tab.
pub open spec fn json_plain(c: char) -> bool {
    (c as int) >= 0x20 || c == '\n' || c == '\r' || c == '\t'
}

/// JSON escaping as replacements of single characters.
pub open spec fn json_chain(s: Seq<char>) -> Seq<char> {
    let a = replace_char(s, '\\', seq!['\\', '\\']);
    let b = replace_char(a, '"', seq!['\\', '"']);
    let c = replace_char(b, '\n', seq!['\\', 'n']);
    let d = replace_char(c, '\r', seq!['\\', 'r']);
    replace_char(d, '\t', seq!['\\', 't'])
}

proof fn lemma_json_escaped_chain(s: Seq<char>)
    ensures
        json_escaped(s) == json_chain(s),
{
    reveal_strlit("\\");
    reveal_strlit("\\\\");
    reveal_strlit("\"");
    reveal_strlit("\\\"");
    reveal_strlit("\n");
    reveal_strlit("\\n");
    reveal_strlit("\r");
    reveal_strlit("\\r");
    reveal_strlit("\t");
    reveal_strlit("\\t");
    assert("\\"@ =~= seq!['\\']);
    assert("\""@ =~= seq!['"']);
    assert("\n"@ =~= seq!['\n']);
    assert("\r"@ =~= seq!['\r']);
    assert("\t"@ =~= seq!['\t']);
    assert("\\\\"@ =~= seq!['\\', '\\']);
    assert("\\\""@ =~= seq!['\\', '"']);
    assert("\\n"@ =~= seq!['\\', 'n']);
    assert("\\r"@ =~= seq!['\\', 'r']);
    assert("\\t"@ =~= seq!['\\', 't']);
    let a = replace_char(s, '\\', seq!['\\', '\\']);
    let b = replace_char(a, '"', seq!['\\', '"']);
    let c = replace_char(b, '\n', seq!['\\', 'n']);
    let d = replace_char(c, '\r', seq!['\\', 'r']);
    lemma_replace_all_char(s, '\\', seq!['\\', '\\']);
    lemma_replace_all_char(a, '"', seq!['\\', '"']);
    lemma_replace_all_char(b, '\n', seq!['\\', 'n']);
    lemma_replace_all_char(c, '\r', seq!['\\', 'r']);
    lemma_replace_all_char(d, '\t', seq!['\\', 't']);
}

proof fn lemma_json_chain_concat(x: Seq<char>, y: Seq<char>)
    ensures
        json_chain(x + y) == json_chain(x) + json_chain(y),
{
    let ax = replace_char(x, '\\', seq!['\\', '\\']);
    let ay = replace_char(y, '\\', seq!['\\', '\\']);
    let bx = replace_char(ax, '"', seq!['\\', '"']);
    let by = replace_char(ay, '"', seq!['\\', '"']);
    let cx = replace_char(bx, '\n', seq!['\\', 'n']);
    let cy = replace_char(by, '\n', seq!['\\', 'n']);
    let dx = replace_char(cx, '\r', seq!['\\', 'r']);
    let dy = replace_char(cy, '\r', seq!['\\', 'r']);
    lemma_replace_char_concat(x, y, '\\', seq!['\\', '\\']);
    lemma_replace_char_concat(ax, ay, '"', seq!['\\', '"']);
    lemma_replace_char_concat(bx, by, '\n', seq!['\\', 'n']);
    lemma_replace_char_concat(cx, cy, '\r', seq!['\\', 'r']);
    lemma_replace_char_concat(dx, dy, '\t', seq!['\\', 't']);
}

proof fn lemma_json_chain_char(x: char)
    ensures
        json_chain(seq![x]) == json_escaped_char(x),
{
    reveal_with_fuel(replace_char, 3);
    let s = seq![x];
    assert(s.drop_first() =~= Seq::<char>::empty());
    let a = replace_char(s, '\\', seq!['\\', '\\']);
    let b = replace_char(a, '"', seq!['\\', '"']);
    let c = replace_char(b, '\n', seq!['\\', 'n']);
    let d = replace_char(c, '\r', seq!['\\', 'r']);
    let e = replace_char(d, '\t', seq!['\\', 't']);
    if x == '\\' {
        assert(a =~= seq!['\\', '\\']);
        assert(a.drop_first() =~= seq!['\\']);
        assert(b =~= a);
        assert(c =~= a);
        assert(d =~= a);
        assert(e =~= a);
    } else {
        assert(a =~= s);
        if x == '"' {
            assert(b =~= seq!['\\', '"']);
            assert(b.drop_first() =~= seq!['"']);
            assert(c =~= b);
            assert(d =~= b);
            assert(e =~= b);
        } else {
            assert(b =~= s);
            if x == '\n' {
                assert(c =~= seq!['\\', 'n']);
                assert(c.drop_first() =~= seq!['n']);
                assert(d =~= c);
                assert(e =~= c);
            } else {
                assert(c =~= s);
                if x == '\r' {
                    assert(d =~= seq!['\\', 'r']);
                    assert(d.drop_first() =~= seq!['r']);
                    assert(e =~= d);
                } else {
                    assert(d =~= s);
                    if x == '\t' {
                        assert(e =~= seq!['\\', 't']);
                    } else {
                        assert(e =~= s);
                    }
                }
            }
        }
    }
}

proof fn lemma_json_chain_per_char(s: Seq<char>)
    ensures
        json_chain(s) == json_escaped_chars(s),
    decreases s.len(),
{
    if s.len() == 0 {
        assert(json_chain(s) =~= Seq::<char>::empty());
    } else {
        let r = s.drop_first();
        lemma_json_chain_per_char(r);
        assert(s =~= seq![s[0]] + r);
        lemma_json_chain_concat(seq![s[0]], r);
        lemma_json_chain_char(s[0]);
    }
}

/// JSON-escaped text is a valid JSON string body that denotes the text it
/// was made from, when that text has no control character other than line
/// feed, carriage return and tab.
pub proof fn lemma_json_escaped_decodes(s: Seq<char>)
    requires
        forall|i: int| 0 <= i < s.len() ==> json_plain(#[trigger] s[i]),
    ensures
        json_string_body(json_escaped(s)) == Some(s),
{
    lemma_json_escaped_chain(s);
    lemma_json_chain_per_char(s);
    lemma_escaped_chars_decode(s);
}

proof fn lemma_escaped_chars_decode(s: Seq<char>)
    requires
        forall|i: int| 0 <= i < s.len() ==> json_plain(#[trigger] s[i]),
    ensures
        json_string_body(json_escaped_chars(s)) == Some(s),
    decreases s.len(),
{
    if s.len() == 0 {
        assert(json_escaped_chars(s) =~= Seq::<char>::empty());
    } else {
        let x = s[0];
        let r = s.drop_first();
        assert forall|i: int| 0 <= i < r.len() implies json_plain(#[trigger] r[i]) by {
            assert(r[i] == s[i + 1]);
        }
        lemma_escaped_chars_decode(r);
        let e = json_escaped_char(x);
        let rest = json_escaped_chars(r);
        let t = e + rest;
        assert(json_escaped_chars(s) == t);
        assert(s =~= seq![x] + r);
        assert(json_plain(s[0]));
        if e.len() == 2 {
            assert(t.skip(2) =~= rest);
            assert(t[0] == '\\');
            assert(t[1] == e[1]);
        } else {
            assert(t.drop_first() =~= rest);
            assert(t[0] == x);
        }
    }
}

// ---------------------------------------------------------------------
// Theater names
// ---------------------------------------------------------------------

/// The lowercased name after removing the prefixes and suffixes that
/// vary between sources (each replaced by a space).
pub open spec fn without_affixes(s: Seq<char>) -> Seq<char> {
    let s = replace_all(s, "kino in der "@, " "@);
    let s = replace_all(s, "kino im "@, " "@);
    let s = replace_all(s, "kino "@, " "@);
    let s = replace_all(s, " kino"@, " "@);
    let s = replace_all(s, " berlin"@, " "@);
    let s = replace_all(s, ", berlin"@, " "@);
    let s = replace_all(s, " - berlin"@, " "@);
    let s = replace_all(s, "berlin - "@, " "@);
    replace_all(s, " - "@, " "@)
}

/// German umlauts and accents spelled out.
pub open spec fn umlauts_spelled(s: Seq<char>) -> Seq<char> {
    let s = replace_all(s, "höfe"@, "hoefe"@);
    let s = replace_all(s, "ü"@, "ue"@);
    let s = replace_all(s, "ö"@, "oe"@);
    let s = replace_all(s, "ä"@, "ae"@);
    let s = replace_all(s, "ß"@, "ss"@);
    replace_all(s, "é"@, "e"@)
}

/// Known spelling variations mapped to one form.
pub open spec fn variants_unified(s: Seq<char>) -> Seq<char> {
    let s = replace_all(s, "cinestar "@, "cinestar "@);
    let s = replace_all(s, "uci kinowelt "@, "uci "@);
    let s = replace_all(s, "uci welt "@, "uci "@);
    let s = replace_all(s, "uci "@, "uci "@);
    let s = replace_all(s, " | luxe"@, ""@);
    let s = replace_all(s, "| luxe"@, ""@);
    let s = replace_all(s, "|luxe"@, ""@);
    let s = replace_all(s, "kulturbrauerei"@, "kulturbrauerei"@);
    let s = replace_all(s, "cubix am alexanderplatz"@, "cubix alexanderplatz"@);
    let s = replace_all(s, "cubix alexanderplatz"@, "cubix alexanderplatz"@);
    let s = replace_all(s, "passage kinos"@, "passage"@);
    let s = replace_all(s, "passage s"@, "passage"@);
    let s = replace_all(s, "passages"@, "passage"@);
    let s = replace_all(s, "wolf kino"@, "wolf"@);
    let s = replace_all(s, "kino intimes"@, "intimes"@);
    let s = replace_all(s, "il kino"@, "il kino"@);
    let s = replace_all(s, "east side gallery"@, "east side gallery"@);
    let s = replace_all(s, "mercedes platz"@, "east side gallery"@);
    let s = replace_all(s, "mercedes-platz"@, "east side gallery"@);
    let s = replace_all(s, "am eastgate"@, "eastgate"@);
    let s = replace_all(s, "gropius passagen"@, "gropius"@);
    replace_all(s, " am "@, " "@)
}

/// The final mapping of a few names that still differ.
pub open spec fn canonical_name(s: Seq<char>) -> Seq<char> {
    if contains(s, "kulturbrauerei"@) && !contains(s, "cinestar"@) {
        "cinestar kulturbrauerei"@
    } else if s == "delphi filmpalast zoo"@ || s == "delphi filmpalast am zoo"@ {
        "delphi filmpalast"@
    } else if s == "il"@ {
        "il kino"@
    } else if s == "yorck s"@ || s == "yorck kinos"@ || s == "new yorck"@ {
        "yorck"@
    } else {
        s
    }
}

/// The key under which theater names are deduplicated.
#[verifier::opaque]
pub open spec fn normalized_name(name: Seq<char>) -> Seq<char> {
    let s = variants_unified(umlauts_spelled(without_affixes(lowercase(name))));
    canonical_name(trim(collapse_whitespace(s)))
}

/// A normalized theater name carries no extra whitespace: none at either
/// end, never two whitespace characters in a row, and none but the plain
/// space.
pub proof fn lemma_normalized_name_tidy(name: Seq<char>)
    ensures
        tidy(normalized_name(name)),
{
    reveal(normalized_name);
    let s = variants_unified(umlauts_spelled(without_affixes(lowercase(name))));
    lemma_words_are_words(s);
    lemma_join_words_tidy(words(s));
    let c = collapse_whitespace(s);
    lemma_trim_tidy(c);
    reveal_strlit("cinestar kulturbrauerei");
    reveal_strlit("delphi filmpalast");
    reveal_strlit("il kino");
    reveal_strlit("yorck");
    assert(tidy("cinestar kulturbrauerei"@));
    assert(tidy("delphi filmpalast"@));
    assert(tidy("il kino"@));
    assert(tidy("yorck"@));
}

/// A normalized theater name is in canonical spacing: splitting it on
/// whitespace and joining the words with single spaces gives it back.
pub proof fn lemma_normalized_name_spacing(name: Seq<char>)
    ensures
        collapse_whitespace(normalized_name(name)) == normalized_name(name),
{
    lemma_normalized_name_tidy(name);
    lemma_collapse_tidy(normalized_name(name));
}

fn without_affixes_exec(s: &Vec<char>) -> (r: Vec<char>)
    ensures
        r@ == without_affixes(s@),
{
    let s = replace_in(s, "kino in der ", " ");
    let s = replace_in(&s, "kino im ", " ");
    let s = replace_in(&s, "kino ", " ");
    let s = replace_in(&s, " kino", " ");
    let s = replace_in(&s, " berlin", " ");
    let s = replace_in(&s, ", berlin", " ");
    let s = replace_in(&s, " - berlin", " ");
    let s = replace_in(&s, "berlin - ", " ");
    replace_in(&s, " - ", " ")
}

fn umlauts_spelled_exec(s: &Vec<char>) -> (r: Vec<char>)
    ensures
        r@ == umlauts_spelled(s@),
{
    let s = replace_in(s, "höfe", "hoefe");
    let s = replace_in(&s, "ü", "ue");
    let s = replace_in(&s, "ö", "oe");
    let s = replace_in(&s, "ä", "ae");
    let s = replace_in(&s, "ß", "ss");
    replace_in(&s, "é", "e")
}

fn variants_unified_exec(s: &Vec<char>) -> (r: Vec<char>)
    ensures
        r@ == variants_unified(s@),
{
    let s = replace_in(s, "cinestar ", "cinestar ");
    let s = replace_in(&s, "uci kinowelt ", "uci ");
    let s = replace_in(&s, "uci welt ", "uci ");
    let s = replace_in(&s, "uci ", "uci ");
    let s = replace_in(&s, " | luxe", "");
    let s = replace_in(&s, "| luxe", "");
    let s = replace_in(&s, "|luxe", "");
    let s = replace_in(&s, "kulturbrauerei", "kulturbrauerei");
    let s = replace_in(&s, "cubix am alexanderplatz", "cubix alexanderplatz");
    let s = replace_in(&s, "cubix alexanderplatz", "cubix alexanderplatz");
    let s = replace_in(&s, "passage kinos", "passage");
    let s = replace_in(&s, "passage s", "passage");
    let s = replace_in(&s, "passages", "passage");
    let s = replace_in(&s, "wolf kino", "wolf");
    let s = replace_in(&s, "kino intimes", "intimes");
    let s = replace_in(&s, "il kino", "il kino");
    let s = replace_in(&s, "east side gallery", "east side gallery");
    let s = replace_in(&s, "mercedes platz", "east side gallery");
    let s = replace_in(&s, "mercedes-platz", "east side gallery");
    let s = replace_in(&s, "am eastgate", "eastgate");
    let s = replace_in(&s, "gropius passagen", "gropius");
    replace_in(&s, " am ", " ")
}

fn canonical_name_exec(s: Vec<char>) -> (r: String)
    ensures
        r@ == canonical_name(s@),
{
    if contains_str(&s, "kulturbrauerei") && !contains_str(&s, "cinestar") {
        String::from_str("cinestar kulturbrauerei")
    } else if chars_eq_str(&s, "delphi filmpalast zoo") || chars_eq_str(
        &s,
        "delphi filmpalast am zoo",
    ) {
        String::from_str("delphi filmpalast")
    } else if chars_eq_str(&s, "il") {
        String::from_str("il kino")
    } else if chars_eq_str(&s, "yorck s") || chars_eq_str(&s, "yorck kinos") || chars_eq_str(
        &s,
        "new yorck",
    ) {
        String::from_str("yorck")
    } else {
        string_of(&s)
    }
}

/// Normalizes a theater name for deduplication: lowercased, source-specific
/// affixes removed, umlauts spelled out, known variants unified, whitespace
/// collapsed, and a few remaining names mapped to one form.  ASCII letter
/// case does not matter: the name with its ASCII letters upper-cased has
/// the same key.
pub fn normalize_theater_name(name: &str) -> (r: String)
    ensures
        r@ == normalized_name(name@),
        r@ == normalized_name(ascii_uppercased(name@)),
{
    let v = chars_of(name);
    let lower = lowercase_chars(&v);
    let a = without_affixes_exec(&lower);
    let b = umlauts_spelled_exec(&a);
    let c = variants_unified_exec(&b);
    let d = collapse_whitespace_chars(&c);
    let e = trim_chars(&d);
    proof {
        reveal(normalized_name);
    }
    canonical_name_exec(e)
}

/// Names of the Yorck group's cinemas, as matched against lowercased names.
pub open spec fn yorck_markers() -> Seq<Seq<char>> {
    seq![
        "babylon"@,
        "capitol"@,
        "cinema paris"@,
        "delphi filmpalast"@,
        "delphi lux"@,
        "filmtheater am friedrichshain"@,
        "international"@,
        "kant"@,
        "kino"@,
        "neues off"@,
        "odeon"@,
        "passage"@,
        "rollberg"@,
        "yorck"@,
        "new yorck"@,
    ]
}

/// A lowercased name belongs to the Yorck group: it names one of the
/// group's cinemas and is not a UCI or CineStar name.
pub open spec fn is_yorck_name(name_lower: Seq<char>) -> bool {
    &&& !contains(name_lower, "uci"@)
    &&& !contains(name_lower, "cinestar"@)
    &&& exists|k: int| 0 <= k < yorck_markers().len() && contains(name_lower, #[trigger] yorck_markers()[k])
}

/// Checks if a (lowercased) theater name is part of the Yorck group.
pub fn is_yorck_theater(name_lower: &str) -> (b: bool)
    ensures
        b == is_yorck_name(name_lower@),
{
    let s = chars_of(name_lower);
    let markers: [&str; 15] = [
        "babylon",
        "capitol",
        "cinema paris",
        "delphi filmpalast",
        "delphi lux",
        "filmtheater am friedrichshain",
        "international",
        "kant",
        "kino",
        "neues off",
        "odeon",
        "passage",
        "rollberg",
        "yorck",
        "new yorck",
    ];
    assert(markers@.map_values(|m: &str| m@) =~= yorck_markers());
    if contains_str(&s, "uci") || contains_str(&s, "cinestar") {
        return false;
    }
    let mut i: usize = 0;
    while i < 15
        invariant
            i <= 15,
            !contains(s@, "uci"@),
            !contains(s@, "cinestar"@),
            s@ == name_lower@,
            markers@.map_values(|m: &str| m@) == yorck_markers(),
            forall|k: int| 0 <= k < i ==> !contains(s@, #[trigger] yorck_markers()[k]),
        decreases 15 - i,
    {
        if contains_str(&s, markers[i]) {
            assert(yorck_markers()[i as int] == markers@[i as int]@);
            assert(contains(name_lower@, yorck_markers()[i as int]));
            return true;
        }
        assert(yorck_markers()[i as int] == markers@[i as int]@);
        i = i + 1;
    }
    false
}

/// The chain or group of a theater, decided on its lowercased name.
pub open spec fn chain_of(name_lower: Seq<char>) -> Seq<char> {
    if contains(name_lower, "uci"@) {
        "UCI"@
    } else if contains(name_lower, "cinestar"@) {
        "CineStar"@
    } else if contains(name_lower, "cinemaxx"@) {
        "CinemaxX"@
    } else if contains(name_lower, "cineplex"@) {
        "Cineplex"@
    } else if contains(name_lower, "cinemotion"@) {
        "CineMotion"@
    } else if is_yorck_name(name_lower) {
        "Yorck Kinos"@
    } else {
        "Independent Cinemas"@
    }
}

/// Determines the chain/group for a theater based on its name.
pub fn get_theater_chain(name: &str) -> (r: &'static str)
    ensures
        r@ == chain_of(lowercase(name@)),
{
    let lower = to_lowercase(name);
    let l = chars_of(lower.as_str());
    if contains_str(&l, "uci") {
        "UCI"
    } else if contains_str(&l, "cinestar") {
        "CineStar"
    } else if contains_str(&l, "cinemaxx") {
        "CinemaxX"
    } else if contains_str(&l, "cineplex") {
        "Cineplex"
    } else if contains_str(&l, "cinemotion") {
        "CineMotion"
    } else if is_yorck_theater(lower.as_str()) {
        "Yorck Kinos"
    } else {
        "Independent Cinemas"
    }
}

} // verus!
