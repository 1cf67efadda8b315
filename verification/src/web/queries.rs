//! The parameters by which visitors search, sort and page the catalog, and
//! the query string that links to a listing.
use vstd::prelude::*;

use crate::db::models::{DbQueryField, DbQuerySortDirection};
use crate::text::{chars_of, decimal, decimal_string, join_spec, replace, replace_spec, string_of};
use crate::web::query_string_laws::{
    first_page, law_pagination_links, law_query_string_omits_defaults, lemma_encoded_listing,
    lemma_kept_encoded, lemma_plain_listing,
};

verus! {

/// Search, sort and paging parameters of a catalog listing.
#[derive(Debug)]
pub struct BoardGameQuery {
    pub limit: u32,
    pub page: u32,
    pub sort_by: DbQueryField,
    pub sort_direction: DbQuerySortDirection,
    pub search: Option<String>,
    pub genre: Option<String>,
    pub players: Option<u32>,
    pub min_playtime: Option<u32>,
    pub max_playtime: Option<u32>,
}

/// What a listing query holds, with its texts as characters.
pub struct ListingView {
    pub limit: u32,
    pub page: u32,
    pub sort_by: DbQueryField,
    pub sort_direction: DbQuerySortDirection,
    pub search: Option<Seq<char>>,
    pub genre: Option<Seq<char>>,
    pub players: Option<u32>,
    pub min_playtime: Option<u32>,
    pub max_playtime: Option<u32>,
}

/// The characters of an optional text.
pub open spec fn text_view(t: Option<String>) -> Option<Seq<char>> {
    match t {
        Some(s) => Some(s@),
        None => None,
    }
}

impl View for BoardGameQuery {
    type V = ListingView;

    open spec fn view(&self) -> ListingView {
        ListingView {
            limit: self.limit,
            page: self.page,
            sort_by: self.sort_by,
            sort_direction: self.sort_direction,
            search: text_view(self.search),
            genre: text_view(self.genre),
            players: self.players,
            min_playtime: self.min_playtime,
            max_playtime: self.max_playtime,
        }
    }
}

/// A name and value pair of a query string, as characters.
pub open spec fn pair_views(p: Seq<(String, String)>) -> Seq<(Seq<char>, Seq<char>)> {
    p.map_values(|x: (String, String)| (x.0@, x.1@))
}

/// The pair for an optional text parameter: none when it is absent.
pub open spec fn text_pair(name: Seq<char>, v: Option<Seq<char>>) -> Seq<(Seq<char>, Seq<char>)> {
    match v {
        Some(s) => seq![(name, s)],
        None => Seq::empty(),
    }
}

/// The pair for an optional number parameter: none when it is absent.
pub open spec fn number_pair(name: Seq<char>, v: Option<u32>) -> Seq<(Seq<char>, Seq<char>)> {
    match v {
        Some(n) => seq![(name, decimal(n as nat))],
        None => Seq::empty(),
    }
}

/// The parameters of `q` in a query string, in the order of its fields:
/// the four always-present ones, then those of the filters that are set.
pub open spec fn query_pairs(q: ListingView) -> Seq<(Seq<char>, Seq<char>)> {
    seq![
        ("limit"@, decimal(q.limit as nat)),
        ("page"@, decimal(q.page as nat)),
        ("sort_by"@, q.sort_by.name()),
        ("sort_direction"@, q.sort_direction.name()),
    ] + text_pair("search"@, q.search) + text_pair("genre"@, q.genre) + number_pair(
        "players"@,
        q.players,
    ) + number_pair("min_playtime"@, q.min_playtime) + number_pair(
        "max_playtime"@,
        q.max_playtime,
    )
}

/// The pairs of `q` that differ from their defaults: a page size that is
/// not zero, a page that is not the first, a sort field other than the
/// title, a descending order, and the filters that are set.
pub open spec fn kept_pairs(q: ListingView) -> Seq<(Seq<char>, Seq<char>)> {
    (if q.limit != 0 {
        seq![("limit"@, decimal(q.limit as nat))]
    } else {
        Seq::empty()
    }) + (if q.page != 0 {
        seq![("page"@, decimal(q.page as nat))]
    } else {
        Seq::empty()
    }) + (if q.sort_by != DbQueryField::Title {
        seq![("sort_by"@, q.sort_by.name())]
    } else {
        Seq::empty()
    }) + (if q.sort_direction != DbQuerySortDirection::ASC {
        seq![("sort_direction"@, q.sort_direction.name())]
    } else {
        Seq::empty()
    }) + text_pair("search"@, q.search) + text_pair("genre"@, q.genre) + number_pair(
        "players"@,
        q.players,
    ) + number_pair("min_playtime"@, q.min_playtime) + number_pair(
        "max_playtime"@,
        q.max_playtime,
    )
}

/// What `serde_urlencoded::to_string` gives for a list of name and value
/// pairs: `None` when it fails.
pub uninterp spec fn urlencoded(pairs: Seq<(Seq<char>, Seq<char>)>) -> Option<Seq<char>>;

/// A character that form encoding leaves as it is.
pub open spec fn unreserved(c: char) -> bool {
    ('a' <= c && c <= 'z') || ('A' <= c && c <= 'Z') || ('0' <= c && c <= '9') || c == '*' || c
        == '-' || c == '.' || c == '_'
}

/// A text of characters that form encoding leaves as they are.
pub open spec fn plain(w: Seq<char>) -> bool {
    forall|j: int| 0 <= j < w.len() ==> unreserved(#[trigger] w[j])
}

/// A character that form encoding writes: one it leaves as it is, `+` for
/// a space, or the `%` of a percent-escape (whose two hex digits it leaves
/// as they are).
pub open spec fn form_char(c: char) -> bool {
    unreserved(c) || c == '+' || c == '%'
}

/// A text made of characters that form encoding writes: it has no `&` and
/// no `=`.
pub open spec fn form_word(w: Seq<char>) -> bool {
    forall|j: int| 0 <= j < w.len() ==> form_char(#[trigger] w[j])
}

/// `x` can be the form encoding of `w`: it is made of characters that form
/// encoding writes, and a plain text is written as it is.
pub open spec fn form_encodes(w: Seq<char>, x: Seq<char>) -> bool {
    &&& form_word(x)
    &&& plain(w) ==> x == w
}

/// `e` can be the form encoding of the pairs `p`, pair by pair, name by name
/// and value by value.
pub open spec fn form_encodes_pairs(p: Seq<(Seq<char>, Seq<char>)>, e: Seq<(Seq<char>, Seq<char>)>) -> bool {
    &&& e.len() == p.len()
    &&& forall|i: int|
        #![trigger e[i]]
        0 <= i < p.len() ==> form_encodes(p[i].0, e[i].0) && form_encodes(p[i].1, e[i].1)
}

/// `s` can be the form encoding of the pairs `p`: `name=value` for each
/// pair, joined by `&`, with every name and value written as form encoding
/// writes it.
pub open spec fn is_form_encoding(p: Seq<(Seq<char>, Seq<char>)>, s: Seq<char>) -> bool {
    exists|e: Seq<(Seq<char>, Seq<char>)>| form_encodes_pairs(p, e) && s == joined_pairs(e)
}

/// `w` is the listing `v` with its search words and genre, if any, replaced
/// by texts that can be their form encodings.
pub open spec fn encodes_listing(v: ListingView, w: ListingView) -> bool {
    &&& w == ListingView { search: w.search, genre: w.genre, ..v }
    &&& (v.search is Some <==> w.search is Some)
    &&& (v.search is Some ==> form_encodes(v.search->0, w.search->0))
    &&& (v.genre is Some <==> w.genre is Some)
    &&& (v.genre is Some ==> form_encodes(v.genre->0, w.genre->0))
}

/// Search words and genre, if any, made of letters, digits and `*-._`.
pub open spec fn plain_texts(v: ListingView) -> bool {
    &&& v.search is Some ==> plain(v.search->0)
    &&& v.genre is Some ==> plain(v.genre->0)
}

/// `name=value` for every pair, separated by `&`.
pub open spec fn joined_pairs(p: Seq<(Seq<char>, Seq<char>)>) -> Seq<char> {
    join_spec(p.map_values(|x: (Seq<char>, Seq<char>)| x.0 + "="@ + x.1), "&"@)
}

#[verifier::external_type_specification]
#[verifier::external_body]
pub struct ExUrlEncodeError(serde_urlencoded::ser::Error);

/// Form-encodes name and value pairs with `serde_urlencoded::to_string`.
/// Claimed, as serde_urlencoded's `to_string` and form_urlencoded's
/// `append_pair` and `byte_serialize` show: a list of text pairs always
/// serializes; the result is a function of the pairs (`urlencoded`); it is
/// `name=value` for each pair, joined by `&`, where every name and value is
/// written with letters, digits, `*-._`, `+` and `%` alone (those five kinds
/// of bytes are kept, a space becomes `+`, any other byte `%` and two hex
/// digits), and a text of letters, digits and `*-._` alone is written as it
/// is. Which escapes another text gets is not stated.
#[verifier::external_body]
fn urlencode(pairs: &Vec<(String, String)>) -> (r: Result<String, serde_urlencoded::ser::Error>)
    ensures
        r is Ok,
        urlencoded(pair_views(pairs@)) == Some(r->Ok_0@),
        is_form_encoding(pair_views(pairs@), r->Ok_0@),
{
    serde_urlencoded::to_string(pairs)
}

/// A query string without the parameters at their default values: the
/// default sort direction, the default sort field, the first page and no
/// page size; a `&` left in front is dropped.
pub open spec fn clean_query(encoded: Seq<char>) -> Seq<char> {
    let s = replace_spec(
        replace_spec(
            replace_spec(
                replace_spec(encoded, "&sort_direction=asc"@, ""@),
                "&sort_by=title"@,
                ""@,
            ),
            "&page=0"@,
            ""@,
        ),
        "limit=0"@,
        ""@,
    );
    if s.len() > 0 && s[0] == '&' {
        s.skip(1)
    } else {
        s
    }
}

/// The query string that links to the listing of `q`.
pub open spec fn query_string(q: ListingView) -> Seq<char> {
    clean_query(
        match urlencoded(query_pairs(q)) {
            Some(e) => e,
            None => Seq::empty(),
        },
    )
}

/// Drops the parameters at their default values from a form-encoded query
/// string, and a `&` left in front.
pub fn clean_query_string(encoded: &str) -> (s: String)
    ensures
        s@ == clean_query(encoded@),
{
    proof {
        reveal_strlit("&sort_direction=asc");
        reveal_strlit("&sort_by=title");
        reveal_strlit("&page=0");
        reveal_strlit("limit=0");
    }
    let a = replace(encoded, "&sort_direction=asc", "");
    let b = replace(a.as_str(), "&sort_by=title", "");
    let c = replace(b.as_str(), "&page=0", "");
    let d = replace(c.as_str(), "limit=0", "");
    let chars = chars_of(d.as_str());
    if chars.len() > 0 && chars[0] == '&' {
        let mut rest: Vec<char> = Vec::new();
        for i in 1..chars.len()
            invariant
                chars@ == d@,
                chars@.len() > 0,
                1 <= i <= chars@.len(),
                rest@ == chars@.subrange(1, i as int),
        {
            rest.push(chars[i]);
            assert(chars@.subrange(1, i + 1) == chars@.subrange(1, i as int).push(chars@[i as int]));
        }
        assert(rest@ == d@.skip(1));
        string_of(&rest)
    } else {
        d
    }
}

impl BoardGameQuery {
    /// The parameters of the query string, in the order of the fields.
    fn pairs(&self) -> (p: Vec<(String, String)>)
        ensures
            pair_views(p@) == query_pairs(self@),
    {
        let mut p: Vec<(String, String)> = Vec::new();
        p.push((String::from_str("limit"), decimal_string(self.limit)));
        p.push((String::from_str("page"), decimal_string(self.page)));
        p.push((String::from_str("sort_by"), self.sort_by.to_string()));
        p.push((String::from_str("sort_direction"), self.sort_direction.to_string()));
        match &self.search {
            Some(s) => p.push((String::from_str("search"), s.clone())),
            None => {},
        }
        match &self.genre {
            Some(s) => p.push((String::from_str("genre"), s.clone())),
            None => {},
        }
        match self.players {
            Some(n) => p.push((String::from_str("players"), decimal_string(n))),
            None => {},
        }
        match self.min_playtime {
            Some(n) => p.push((String::from_str("min_playtime"), decimal_string(n))),
            None => {},
        }
        match self.max_playtime {
            Some(n) => p.push((String::from_str("max_playtime"), decimal_string(n))),
            None => {},
        }
        assert(pair_views(p@) =~= query_pairs(self@));
        p
    }

    /// The query string that links to this listing, and the listing whose
    /// texts are written as the form encoding writes them.
    fn encoded_query_string(&self) -> (r: (String, Ghost<ListingView>))
        ensures
            encodes_listing(self@, r.1@),
            r.0@ == query_string(self@),
            r.0@ == clean_query(joined_pairs(query_pairs(r.1@))),
    {
        let pairs = self.pairs();
        let encoded = match urlencode(&pairs) {
            Ok(e) => e,
            Err(_) => String::new(),
        };
        let ghost e = choose|e: Seq<(Seq<char>, Seq<char>)>|
            form_encodes_pairs(query_pairs(self@), e) && encoded@ == joined_pairs(e);
        let ghost w = lemma_encoded_listing(self@, e);
        let s = clean_query_string(encoded.as_str());
        (s, Ghost(w))
    }

    /// The query string that links to this listing: the form encoding of the
    /// parameters that differ from their defaults, so that no page size of
    /// zero, first page, sorting by title or ascending order appears, no
    /// filter that is not set, and no `&` in front.
    pub fn to_string(&self) -> (s: String)
        ensures
            s@ == query_string(self@),
            is_form_encoding(kept_pairs(self@), s@),
            plain_texts(self@) ==> s@ == joined_pairs(kept_pairs(self@)),
    {
        let (s, Ghost(w)) = self.encoded_query_string();
        proof {
            law_query_string_omits_defaults(w);
            lemma_kept_encoded(self@, w);
            if plain_texts(self@) {
                lemma_plain_listing(self@, w);
            }
        }
        s
    }

    /// The query string of this listing without its page, for the links of
    /// the pagination. With a page size, it is the query string of the same
    /// listing on its first page.
    pub fn query_string_without_page(&self) -> (s: String)
        ensures
            s@ == replace_spec(query_string(self@), "&page="@ + decimal(self.page as nat), ""@),
            self.limit != 0 ==> is_form_encoding(kept_pairs(first_page(self@)), s@),
    {
        let mut page = String::from_str("&page=");
        page.append(decimal_string(self.page).as_str());
        proof {
            reveal_strlit("&page=");
        }
        let (full, Ghost(w)) = self.encoded_query_string();
        let s = replace(full.as_str(), page.as_str(), "");
        proof {
            reveal_strlit("");
            if self.limit != 0 {
                law_pagination_links(w);
                law_query_string_omits_defaults(first_page(w));
                lemma_kept_encoded(first_page(self@), first_page(w));
            }
        }
        s
    }

    /// Gives a listing without a page size the default page size.
    pub fn with_default_limit(&mut self, default_limit: u32)
        ensures
            old(self).limit == 0 ==> final(self).limit == default_limit,
            old(self).limit != 0 ==> final(self).limit == old(self).limit,
            final(self).page == old(self).page,
            final(self).sort_by == old(self).sort_by,
            final(self).sort_direction == old(self).sort_direction,
            final(self).search == old(self).search,
            final(self).genre == old(self).genre,
            final(self).players == old(self).players,
            final(self).min_playtime == old(self).min_playtime,
            final(self).max_playtime == old(self).max_playtime,
    {
        if self.limit == 0 {
            self.limit = default_limit;
        }
    }
}

} // verus!
