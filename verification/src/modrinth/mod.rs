//! What the library knows of the Modrinth API: its data models and the
//! search orders it offers.
pub mod models;

use crate::modrinth::models::{loader_name, Loader};
use crate::text::{owned, str_equal, texts};
use vstd::prelude::*;

verus! {

/// The address all API paths start with.
pub const BASE_URL: &'static str = "https://api.modrinth.com/v2";

/// A lowercase hexadecimal digit.
pub open spec fn hex_digit(d: nat) -> char {
    if d < 10 { digit(d) } else if d == 10 { 'a' } else if d == 11 { 'b' } else if d == 12 { 'c' }
    else if d == 13 { 'd' } else if d == 14 { 'e' } else { 'f' }
}

/// A character inside a JSON string: a quote and a backslash are escaped
/// by a backslash, the control characters by their short escape where
/// JSON has one and by `\u00` and two hexadecimal digits otherwise; every
/// other character stands for itself.
pub open spec fn json_char(c: char) -> Seq<char> {
    let n = c as u32;
    if c == '"' { seq!['\\', '"'] }
    else if c == '\\' { seq!['\\', '\\'] }
    else if n == 8 { seq!['\\', 'b'] }
    else if n == 9 { seq!['\\', 't'] }
    else if n == 10 { seq!['\\', 'n'] }
    else if n == 12 { seq!['\\', 'f'] }
    else if n == 13 { seq!['\\', 'r'] }
    else if n < 32 { seq!['\\', 'u', '0', '0', hex_digit((n / 16) as nat), hex_digit((n % 16) as nat)] }
    else { seq![c] }
}

/// The characters of a text, each as inside a JSON string.
pub open spec fn json_escaped(s: Seq<char>) -> Seq<char>
    decreases s.len(),
{
    if s.len() == 0 { Seq::empty() } else { json_escaped(s.drop_last()) + json_char(s.last()) }
}

/// A text as a JSON string.
pub open spec fn json_string(s: Seq<char>) -> Seq<char> {
    seq!['"'] + json_escaped(s) + seq!['"']
}

/// JSON values separated by commas.
pub open spec fn json_joined(values: Seq<Seq<char>>) -> Seq<char>
    decreases values.len(),
{
    if values.len() == 0 { Seq::empty() }
    else if values.len() == 1 { values[0] }
    else { json_joined(values.drop_last()) + seq![','] + values.last() }
}

/// A compact JSON array of the given values.
pub open spec fn json_array(values: Seq<Seq<char>>) -> Seq<char> {
    seq!['['] + json_joined(values) + seq![']']
}

/// The compact JSON text of a list of strings, as `serde_json::to_string`
/// writes it.
pub open spec fn json_of_strings(items: Seq<Seq<char>>) -> Seq<char> {
    json_array(items.map_values(|t: Seq<char>| json_string(t)))
}

/// The compact JSON text of a list of lists of strings, as
/// `serde_json::to_string` writes it.
pub open spec fn json_of_string_lists(rows: Seq<Seq<Seq<char>>>) -> Seq<char> {
    json_array(rows.map_values(|r: Seq<Seq<char>>| json_of_strings(r)))
}

#[verifier::external_type_specification]
#[verifier::external_body]
pub struct ExJsonError(serde_json::Error);

/// Calls `serde_json::to_string` on a list of strings. Trusted: it succeeds,
/// since a string list is written into a growable buffer with no way to
/// fail, and the text is `json_of_strings` of the items: brackets, commas
/// and quoted strings, escaped as its escape table says.
#[verifier::external_body]
fn strings_to_json(items: &Vec<String>) -> (res: Result<String, serde_json::Error>)
    ensures
        res is Ok,
        res matches Ok(s) ==> s@ == json_of_strings(texts(items@)),
{
    serde_json::to_string(items)
}

/// Calls `serde_json::to_string` on a list of lists of strings. Trusted: it
/// succeeds, since nested string lists are written into a growable buffer
/// with no way to fail, and the text is `json_of_string_lists` of the rows,
/// written as `json_of_strings` says, row by row.
#[verifier::external_body]
fn string_lists_to_json(rows: &Vec<Vec<String>>) -> (res: Result<String, serde_json::Error>)
    ensures
        res is Ok,
        res matches Ok(s) ==> s@ == json_of_string_lists(rows@.map_values(|r: Vec<String>| texts(r@))),
{
    serde_json::to_string(rows)
}

/// The address `reqwest::Url::parse_with_params` makes of `base` and query
/// pairs: `base` read as an absolute address, with the pairs appended to its
/// query, form-encoded, in order; `None` where `base` is no absolute address.
pub uninterp spec fn url_with_params(base: Seq<char>, pairs: Seq<(Seq<char>, Seq<char>)>) -> Option<Seq<char>>;

/// Calls `reqwest::Url::parse_with_params` and writes the address as text.
/// Trusted: the result is `url_with_params` of the base and the pairs, as
/// texts; the parser and the form encoding are not stated.
#[verifier::external_body]
fn parse_with_params(base: &str, pairs: &Vec<(String, String)>) -> (res: Option<String>)
    ensures
        match res {
            Some(u) => url_with_params(base@, pair_texts(pairs@)) == Some(u@),
            None => url_with_params(base@, pair_texts(pairs@)) is None,
        },
{
    match reqwest::Url::parse_with_params(base, pairs) {
        Ok(u) => Some(u.into()),
        Err(_) => None,
    }
}

/// The decimal digits of a number.
pub open spec fn decimal(n: nat) -> Seq<char>
    decreases n,
{
    if n < 10 {
        seq![digit(n)]
    } else {
        decimal(n / 10) + seq![digit(n % 10)]
    }
}

/// The character of a digit.
pub open spec fn digit(d: nat) -> char {
    if d == 0 { '0' } else if d == 1 { '1' } else if d == 2 { '2' } else if d == 3 { '3' } else if d == 4 { '4' }
    else if d == 5 { '5' } else if d == 6 { '6' } else if d == 7 { '7' } else if d == 8 { '8' } else { '9' }
}

/// The text of one digit.
fn digit_text(d: usize) -> (res: &'static str)
    requires
        d < 10,
    ensures
        res@ == seq![digit(d as nat)],
{
    proof {
        reveal_strlit("0");
        reveal_strlit("1");
        reveal_strlit("2");
        reveal_strlit("3");
        reveal_strlit("4");
        reveal_strlit("5");
        reveal_strlit("6");
        reveal_strlit("7");
        reveal_strlit("8");
        reveal_strlit("9");
    }
    if d == 0 { "0" } else if d == 1 { "1" } else if d == 2 { "2" } else if d == 3 { "3" } else if d == 4 { "4" }
    else if d == 5 { "5" } else if d == 6 { "6" } else if d == 7 { "7" } else if d == 8 { "8" } else { "9" }
}

/// Writes a number in decimal.
pub fn decimal_text(n: usize) -> (res: String)
    ensures
        res@ == decimal(n as nat),
    decreases n,
{
    if n < 10 {
        owned(digit_text(n))
    } else {
        let mut res = decimal_text(n / 10);
        res.append(digit_text(n % 10));
        res
    }
}

/// The text of a truth value.
pub open spec fn bool_text(b: bool) -> Seq<char> {
    if b { "true"@ } else { "false"@ }
}

/// The names of loaders.
pub open spec fn loader_names(ls: Seq<Loader>) -> Seq<Seq<char>> {
    ls.map_values(|l: Loader| loader_name(l))
}

/// A query pair as texts.
pub open spec fn pair_text(p: (String, String)) -> (Seq<char>, Seq<char>) {
    (p.0@, p.1@)
}

/// The query pairs of a request, as texts.
pub open spec fn pair_texts(ps: Seq<(String, String)>) -> Seq<(Seq<char>, Seq<char>)> {
    ps.map_values(|p: (String, String)| pair_text(p))
}

/// The path of the versions of a project.
pub fn project_versions_url(id_or_slug: &str) -> (res: String)
    ensures
        res@ == BASE_URL@ + "/project/"@ + id_or_slug@ + "/version"@,
{
    let mut s = owned(BASE_URL);
    s.append("/project/");
    s.append(id_or_slug);
    s.append("/version");
    s
}

/// The query of a request for the versions of a project: `loaders` and
/// `game_versions` as JSON lists and `featured` as a truth value, each only
/// if given, in that order.
pub open spec fn version_list_pairs(
    loaders: Option<Seq<Loader>>,
    game_versions: Option<Seq<Seq<char>>>,
    featured: Option<bool>,
) -> Seq<(Seq<char>, Seq<char>)> {
    let a: Seq<(Seq<char>, Seq<char>)> = match loaders {
        Some(ls) => seq![("loaders"@, json_of_strings(loader_names(ls)))],
        None => Seq::empty(),
    };
    let b: Seq<(Seq<char>, Seq<char>)> = match game_versions {
        Some(g) => seq![("game_versions"@, json_of_strings(g))],
        None => Seq::empty(),
    };
    let c: Seq<(Seq<char>, Seq<char>)> = match featured {
        Some(f) => seq![("featured"@, bool_text(f))],
        None => Seq::empty(),
    };
    a + b + c
}

/// The names of loaders, as owned texts.
fn names_of(loaders: &Vec<Loader>) -> (res: Vec<String>)
    ensures
        texts(res@) == loader_names(loaders@),
{
    let mut res: Vec<String> = Vec::new();
    let mut i: usize = 0;
    while i < loaders.len()
        invariant
            i <= loaders@.len(),
            texts(res@) == loader_names(loaders@.take(i as int)),
        decreases loaders@.len() - i,
    {
        let ghost before = res@;
        res.push(owned(loaders[i].as_str()));
        proof {
            assert(texts(res@) =~= texts(before).push(loader_name(loaders@[i as int])));
            assert(loader_names(loaders@.take(i + 1)) =~= loader_names(loaders@.take(i as int)).push(
                loader_name(loaders@[i as int]),
            ));
        }
        i = i + 1;
    }
    assert(loaders@.take(loaders@.len() as int) =~= loaders@);
    res
}

/// Builds the query of a request for the versions of a project.
pub fn version_list_query(
    loaders: Option<&Vec<Loader>>,
    game_versions: Option<&Vec<String>>,
    featured: Option<bool>,
) -> (res: Vec<(String, String)>)
    ensures
        pair_texts(res@) == version_list_pairs(
            match loaders { Some(l) => Some(l@), None => None },
            match game_versions { Some(g) => Some(texts(g@)), None => None },
            featured,
        ),
{
    let mut res: Vec<(String, String)> = Vec::new();
    if let Some(ls) = loaders {
        let names = names_of(ls);
        let j = strings_to_json(&names).unwrap();
        res.push((owned("loaders"), j));
    }
    if let Some(g) = game_versions {
        let j = strings_to_json(g).unwrap();
        res.push((owned("game_versions"), j));
    }
    if let Some(f) = featured {
        let text = if f { owned("true") } else { owned("false") };
        res.push((owned("featured"), text));
    }
    proof {
        let lo = match loaders { Some(l) => Some(l@), None => None };
        let gv = match game_versions { Some(g) => Some(texts(g@)), None => None };
        assert(pair_texts(res@) =~= version_list_pairs(lo, gv, featured));
    }
    res
}

/// The path of a project.
pub fn project_url(slug_or_id: &str) -> (res: String)
    ensures
        res@ == BASE_URL@ + "/project/"@ + slug_or_id@,
{
    let mut s = owned(BASE_URL);
    s.append("/project/");
    s.append(slug_or_id);
    s
}

/// The path of the list of game versions.
pub fn game_versions_url() -> (res: String)
    ensures
        res@ == BASE_URL@ + "/tag/game_version"@,
{
    let mut s = owned(BASE_URL);
    s.append("/tag/game_version");
    s
}

/// The path of a project search.
pub fn search_url() -> (res: String)
    ensures
        res@ == BASE_URL@ + "/search"@,
{
    let mut s = owned(BASE_URL);
    s.append("/search");
    s
}

/// The query of a project search: the search text, then the facets as a
/// JSON list of lists, the search order, the offset and the limit, each
/// only if given, in that order.
pub open spec fn search_pairs(
    query: Seq<char>,
    facets: Option<Seq<Seq<Seq<char>>>>,
    index: Option<Index>,
    offset: Option<usize>,
    limit: Option<usize>,
) -> Seq<(Seq<char>, Seq<char>)> {
    let a: Seq<(Seq<char>, Seq<char>)> = seq![("query"@, query)];
    let b: Seq<(Seq<char>, Seq<char>)> = match facets {
        Some(f) => seq![("facets"@, json_of_string_lists(f))],
        None => Seq::empty(),
    };
    let c: Seq<(Seq<char>, Seq<char>)> = match index {
        Some(i) => seq![("index"@, index_name(i))],
        None => Seq::empty(),
    };
    let d: Seq<(Seq<char>, Seq<char>)> = match offset {
        Some(o) => seq![("offset"@, decimal(o as nat))],
        None => Seq::empty(),
    };
    let e: Seq<(Seq<char>, Seq<char>)> = match limit {
        Some(l) => seq![("limit"@, decimal(l as nat))],
        None => Seq::empty(),
    };
    a + b + c + d + e
}

/// Builds the query of a project search.
pub fn search_query(
    query: &str,
    facets: Option<&Vec<Vec<String>>>,
    index: Option<Index>,
    offset: Option<usize>,
    limit: Option<usize>,
) -> (res: Vec<(String, String)>)
    ensures
        pair_texts(res@) == search_pairs(
            query@,
            match facets { Some(f) => Some(f@.map_values(|r: Vec<String>| texts(r@))), None => None },
            index,
            offset,
            limit,
        ),
{
    let mut res: Vec<(String, String)> = Vec::new();
    res.push((owned("query"), owned(query)));
    if let Some(f) = facets {
        let j = string_lists_to_json(f).unwrap();
        res.push((owned("facets"), j));
    }
    if let Some(i) = index {
        res.push((owned("index"), owned(i.as_str())));
    }
    if let Some(o) = offset {
        res.push((owned("offset"), decimal_text(o)));
    }
    if let Some(l) = limit {
        res.push((owned("limit"), decimal_text(l)));
    }
    proof {
        let fa = match facets { Some(f) => Some(f@.map_values(|r: Vec<String>| texts(r@))), None => None };
        assert(pair_texts(res@) =~= search_pairs(query@, fa, index, offset, limit));
    }
    res
}

/// The address of a request for the versions of a project, its query
/// built by `version_list_query`; `None` where no address can be made of it.
pub fn version_list_request(
    id_or_slug: &str,
    loaders: Option<&Vec<Loader>>,
    game_versions: Option<&Vec<String>>,
    featured: Option<bool>,
) -> (res: Option<String>)
    ensures
        match res {
            Some(u) => Some(u@),
            None => None,
        } == url_with_params(
            BASE_URL@ + "/project/"@ + id_or_slug@ + "/version"@,
            version_list_pairs(
                match loaders { Some(l) => Some(l@), None => None },
                match game_versions { Some(g) => Some(texts(g@)), None => None },
                featured,
            ),
        ),
{
    let base = project_versions_url(id_or_slug);
    let pairs = version_list_query(loaders, game_versions, featured);
    parse_with_params(base.as_str(), &pairs)
}

/// The address of a project search, its query built by `search_query`;
/// `None` where no address can be made of it.
pub fn search_request(
    query: &str,
    facets: Option<&Vec<Vec<String>>>,
    index: Option<Index>,
    offset: Option<usize>,
    limit: Option<usize>,
) -> (res: Option<String>)
    ensures
        match res {
            Some(u) => Some(u@),
            None => None,
        } == url_with_params(
            BASE_URL@ + "/search"@,
            search_pairs(
                query@,
                match facets { Some(f) => Some(f@.map_values(|r: Vec<String>| texts(r@))), None => None },
                index,
                offset,
                limit,
            ),
        ),
{
    let base = search_url();
    let pairs = search_query(query, facets, index, offset, limit);
    parse_with_params(base.as_str(), &pairs)
}

/// The order in which search results are listed.
#[derive(Debug, Clone, Copy, PartialEq, Eq, Structural)]
pub enum Index {
    Relevance,
    Downloads,
    Follows,
    Newest,
    Updated,
}

/// The name of a search order, as the API expects it.
pub open spec fn index_name(i: Index) -> Seq<char> {
    match i {
        Index::Relevance => "relevance"@,
        Index::Downloads => "downloads"@,
        Index::Follows => "follows"@,
        Index::Newest => "newest"@,
        Index::Updated => "updated"@,
    }
}

/// The message given for a text that names no search order.
pub const INDEX_PARSE_ERROR: &'static str = "invalid value for Index; valid values are: \n  - relevance\n  - downloads\n  - follows\n  - newest\n  - updated";

impl Index {
    /// The search order's name.
    pub fn as_str(&self) -> (res: &'static str)
        ensures
            res@ == index_name(*self),
    {
        match self {
            Index::Relevance => "relevance",
            Index::Downloads => "downloads",
            Index::Follows => "follows",
            Index::Newest => "newest",
            Index::Updated => "updated",
        }
    }

    /// All search orders, in declaration order.
    pub fn as_vec() -> (res: Vec<Index>)
        ensures
            res@ == seq![Index::Relevance, Index::Downloads, Index::Follows, Index::Newest, Index::Updated],
    {
        let res = vec![Index::Relevance, Index::Downloads, Index::Follows, Index::Newest, Index::Updated];
        assert(res@ =~= seq![Index::Relevance, Index::Downloads, Index::Follows, Index::Newest, Index::Updated]);
        res
    }

    /// Reads a search order from its name.
    pub fn parse(s: &str) -> (res: Result<Index, &'static str>)
        ensures
            match res {
                Ok(i) => index_name(i) == s@,
                Err(e) => e@ == INDEX_PARSE_ERROR@ && forall|i: Index| index_name(i) != s@,
            },
    {
        if str_equal("relevance", s) {
            Ok(Index::Relevance)
        } else if str_equal("downloads", s) {
            Ok(Index::Downloads)
        } else if str_equal("follows", s) {
            Ok(Index::Follows)
        } else if str_equal("newest", s) {
            Ok(Index::Newest)
        } else if str_equal("updated", s) {
            Ok(Index::Updated)
        } else {
            assert forall|i: Index| index_name(i) != s@ by {
                match i {
                    Index::Relevance => {},
                    Index::Downloads => {},
                    Index::Follows => {},
                    Index::Newest => {},
                    Index::Updated => {},
                }
            }
            Err(INDEX_PARSE_ERROR)
        }
    }
}

impl core::str::FromStr for Index {
    type Err = &'static str;

    /// Reads a search order from its name, as `Index::parse` does.
    fn from_str(s: &str) -> (res: Result<Index, &'static str>)
        ensures
            match res {
                Ok(i) => index_name(i) == s@,
                Err(e) => e@ == INDEX_PARSE_ERROR@ && forall|i: Index| index_name(i) != s@,
            },
    {
        Index::parse(s)
    }
}

} // verus!
