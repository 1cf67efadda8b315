//! The records the catalog stores and the names used to sort them.
use vstd::prelude::*;

verus! {

/// One board game of the catalog.
#[derive(Debug)]
pub struct BoardGame {
    pub uid: Option<String>,
    pub title: String,
    pub image_url: String,
    pub min_players: u8,
    pub max_players: u8,
    pub players_no_limit: bool,
    pub min_playtime: u16,
    pub max_playtime: u16,
    pub playtime_no_limit: bool,
    pub available: bool,
    pub expansions: Vec<BoardGameExpansion>,
    pub bgg_id: Option<String>,
}

/// An expansion of a board game, known by its title.
#[derive(Debug, PartialEq, Eq)]
pub struct BoardGameExpansion {
    pub title: String,
}

/// The direction in which query results are sorted.
#[derive(Debug, Clone, Copy, PartialEq, Eq, Structural)]
pub enum DbQuerySortDirection {
    ASC,
    DESC,
}

impl DbQuerySortDirection {
    /// The name of the direction in queries and query strings.
    pub open spec fn name(self) -> Seq<char> {
        match self {
            DbQuerySortDirection::ASC => "asc"@,
            DbQuerySortDirection::DESC => "desc"@,
        }
    }

    /// The name of the direction, as it is displayed.
    pub fn to_string(&self) -> (s: String)
        ensures
            s@ == self.name(),
    {
        match self {
            DbQuerySortDirection::ASC => String::from_str("asc"),
            DbQuerySortDirection::DESC => String::from_str("desc"),
        }
    }
}

impl Default for DbQuerySortDirection {
    /// Ascending order.
    fn default() -> (d: Self)
        ensures
            d == DbQuerySortDirection::ASC,
    {
        DbQuerySortDirection::ASC
    }
}

/// The field by which query results are sorted.
#[derive(Debug, Clone, Copy, PartialEq, Eq, Structural)]
pub enum DbQueryField {
    Title,
    MinPlayers,
    MaxPlayers,
    MinPlaytime,
    MaxPlaytime,
    Genre,
    Available,
}

impl DbQueryField {
    /// The name of the field in queries and query strings.
    pub open spec fn name(self) -> Seq<char> {
        match self {
            DbQueryField::Title => "title"@,
            DbQueryField::MinPlayers => "min_players"@,
            DbQueryField::MaxPlayers => "max_players"@,
            DbQueryField::MinPlaytime => "min_playtime"@,
            DbQueryField::MaxPlaytime => "max_playtime"@,
            DbQueryField::Genre => "genre"@,
            DbQueryField::Available => "available"@,
        }
    }

    /// The name of the field, as it is displayed.
    pub fn to_string(&self) -> (s: String)
        ensures
            s@ == self.name(),
    {
        match self {
            DbQueryField::Title => String::from_str("title"),
            DbQueryField::MinPlayers => String::from_str("min_players"),
            DbQueryField::MaxPlayers => String::from_str("max_players"),
            DbQueryField::MinPlaytime => String::from_str("min_playtime"),
            DbQueryField::MaxPlaytime => String::from_str("max_playtime"),
            DbQueryField::Genre => String::from_str("genre"),
            DbQueryField::Available => String::from_str("available"),
        }
    }
}

impl Default for DbQueryField {
    /// Sorting by title.
    fn default() -> (d: Self)
        ensures
            d == DbQueryField::Title,
    {
        DbQueryField::Title
    }
}

/// A number of records, as the database reports it.
#[derive(Debug, Clone, Copy, PartialEq, Eq, Structural)]
pub struct Count {
    pub count: u32,
}

} // verus!
