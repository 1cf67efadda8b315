use bgcat::db::models::{DbQueryField, DbQuerySortDirection};
use bgcat::web::queries::{clean_query_string, BoardGameQuery};

fn query(limit: u32, page: u32) -> BoardGameQuery {
    BoardGameQuery {
        limit,
        page,
        sort_by: DbQueryField::Title,
        sort_direction: DbQuerySortDirection::ASC,
        search: None,
        genre: None,
        players: None,
        min_playtime: None,
        max_playtime: None,
    }
}

#[test]
fn defaults_give_an_empty_query_string() {
    assert_eq!(query(0, 0).to_string(), "");
}

#[test]
fn paging_is_kept() {
    assert_eq!(query(8, 2).to_string(), "limit=8&page=2");
    assert_eq!(query(8, 0).to_string(), "limit=8");
    assert_eq!(query(0, 3).to_string(), "page=3");
    assert_eq!(query(10, 10).to_string(), "limit=10&page=10");
}

#[test]
fn sorting_and_filters_are_kept() {
    let mut q = query(0, 0);
    q.sort_by = DbQueryField::MaxPlayers;
    q.sort_direction = DbQuerySortDirection::DESC;
    q.players = Some(4);
    q.max_playtime = Some(45);
    assert_eq!(
        q.to_string(),
        "sort_by=max_players&sort_direction=desc&players=4&max_playtime=45"
    );
}

#[test]
fn search_words_are_encoded() {
    let mut q = query(8, 0);
    q.search = Some("Ticket to Ride & more".to_string());
    q.genre = Some("family".to_string());
    assert_eq!(q.to_string(), "limit=8&search=Ticket+to+Ride+%26+more&genre=family");
}

#[test]
fn pagination_links_drop_the_page() {
    let mut q = query(8, 3);
    q.min_playtime = Some(20);
    assert_eq!(q.to_string(), "limit=8&page=3&min_playtime=20");
    assert_eq!(q.query_string_without_page(), "limit=8&min_playtime=20");
    assert_eq!(query(8, 0).query_string_without_page(), "limit=8");
}

#[test]
fn cleaning_encoded_strings() {
    assert_eq!(
        clean_query_string("limit=0&page=0&sort_by=title&sort_direction=asc&players=2"),
        "players=2"
    );
    assert_eq!(clean_query_string("&a=b"), "a=b");
    assert_eq!(clean_query_string(""), "");
}

#[test]
fn default_page_size() {
    let mut q = query(0, 2);
    q.with_default_limit(8);
    assert_eq!(q.limit, 8);
    assert_eq!(q.page, 2);
    let mut q = query(3, 0);
    q.with_default_limit(8);
    assert_eq!(q.limit, 3);
}

#[test]
fn only_non_default_parameters_remain() {
    let mut q = query(0, 0);
    q.sort_direction = DbQuerySortDirection::DESC;
    assert_eq!(q.to_string(), "sort_direction=desc");
    let mut q = query(0, 4);
    q.sort_by = DbQueryField::Genre;
    q.min_playtime = Some(0);
    assert_eq!(q.to_string(), "page=4&sort_by=genre&min_playtime=0");
    let mut q = query(12, 0);
    q.players = Some(10);
    assert_eq!(q.to_string(), "limit=12&players=10");
}

#[test]
fn plain_search_words_stay_as_they_are() {
    let mut q = query(0, 0);
    q.search = Some("limit".to_string());
    q.genre = Some("".to_string());
    assert_eq!(q.to_string(), "search=limit&genre=");
}

#[test]
fn link_without_page_is_the_first_page_link() {
    let listing = |page: u32| {
        let mut q = query(12, page);
        q.sort_by = DbQueryField::Genre;
        q.search = Some("azul".to_string());
        q.players = Some(2);
        q
    };
    assert_eq!(listing(5).query_string_without_page(), listing(0).to_string());
    assert_eq!(
        listing(5).query_string_without_page(),
        "limit=12&sort_by=genre&search=azul&players=2"
    );
}

#[test]
fn encoded_words_never_look_like_defaults() {
    let mut q = query(0, 0);
    q.search = Some("limit=0&page=0".to_string());
    q.genre = Some("&sort_by=title".to_string());
    assert_eq!(
        q.to_string(),
        "search=limit%3D0%26page%3D0&genre=%26sort_by%3Dtitle"
    );
    let mut p = query(5, 2);
    p.search = Some("a&page=2".to_string());
    assert_eq!(p.query_string_without_page(), "limit=5&search=a%26page%3D2");
}
