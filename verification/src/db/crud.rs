//! What the catalog decides around its database calls: the id a new board
//! game is stored under, and what an empty count reads as.
use vstd::prelude::*;

use crate::db::models::{BoardGame, Count};

verus! {

/// What `slug::slugify` gives for a text.
pub uninterp spec fn slug_of(s: Seq<char>) -> Seq<char>;

/// A slug: lower-case ASCII letters, digits and `-`, never two `-` in a row,
/// never `-` first or last.
pub open spec fn is_slug(s: Seq<char>) -> bool {
    &&& forall|i: int|
        0 <= i < s.len() ==> ('a' <= #[trigger] s[i] && s[i] <= 'z') || ('0' <= s[i] && s[i]
            <= '9') || s[i] == '-'
    &&& s.len() > 0 ==> s[0] != '-' && s[s.len() - 1] != '-'
    &&& forall|i: int| 0 <= i < s.len() - 1 ==> !(#[trigger] s[i] == '-' && s[i + 1] == '-')
}

/// The slug of a text, from `slug::slugify`. Claimed: the result is a
/// function of the text (`slug_of`) and is a slug, as the function's
/// documentation promises (only `a-z`, `0-9` and `-`, no `-` twice in a row,
/// none first or last). Which slug a given text has is not stated.
#[verifier::external_body]
fn slugify(s: &str) -> (r: String)
    ensures
        r@ == slug_of(s@),
        is_slug(r@),
{
    slug::slugify(s)
}

/// The id under which a board game with this title is stored: the slug of
/// the title.
pub fn generate_boardgame_uid(title: &str) -> (uid: String)
    ensures
        uid@ == slug_of(title@),
        is_slug(uid@),
{
    slugify(title)
}

/// A new board game as it is stored: its id is the slug of its title,
/// whatever id it came with; every other field is kept.
pub fn prepare_boardgame_create(data: BoardGame) -> (bg: BoardGame)
    ensures
        bg.uid is Some,
        bg.uid->0@ == slug_of(data.title@),
        bg.title == data.title,
        bg.image_url == data.image_url,
        bg.min_players == data.min_players,
        bg.max_players == data.max_players,
        bg.players_no_limit == data.players_no_limit,
        bg.min_playtime == data.min_playtime,
        bg.max_playtime == data.max_playtime,
        bg.playtime_no_limit == data.playtime_no_limit,
        bg.available == data.available,
        bg.expansions == data.expansions,
        bg.bgg_id == data.bgg_id,
{
    let mut data = data;
    data.uid = Some(generate_boardgame_uid(data.title.as_str()));
    data
}

/// The number a count query reports: zero when it reports no row.
pub fn count_or_zero(count: Option<Count>) -> (n: u32)
    ensures
        count is None ==> n == 0,
        count is Some ==> n == count->0.count,
{
    match count {
        Some(c) => c.count,
        None => 0,
    }
}

} // verus!
