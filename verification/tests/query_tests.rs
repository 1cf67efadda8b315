use bgcat::db::models::{DbQueryField, DbQuerySortDirection};
use bgcat::db::query::{generate_conditions, BindValue, DbQuery, DbQueryBuilder};
use bgcat::web::queries::BoardGameQuery;
use std::collections::HashMap;

fn query(limit: u32, page: u32) -> BoardGameQuery {
    BoardGameQuery {
        limit,
        page,
        sort_by: DbQueryField::Title,
        sort_direction: DbQuerySortDirection::ASC,
        search: None,
        genre: None,
        players: None,
        min_playtime: None,
        max_playtime: None,
    }
}

fn as_map(q: &DbQuery) -> HashMap<String, BindValue> {
    let mut m = HashMap::new();
    for (k, v) in q.bindings() {
        m.insert(k.clone(), v.clone());
    }
    m
}

#[test]
fn select_without_filters_or_paging() {
    let q = DbQuery::select(&query(0, 0));
    assert_eq!(q.query(), "SELECT * FROM boardgame ORDER title NUMERIC asc;");
    assert!(as_map(&q).is_empty());
}

#[test]
fn select_with_filters_sort_and_paging() {
    let mut bq = query(8, 2);
    bq.search = Some("catan".to_string());
    bq.players = Some(4);
    bq.sort_by = DbQueryField::MinPlayers;
    bq.sort_direction = DbQuerySortDirection::DESC;
    let q = DbQuery::select(&bq);
    assert_eq!(
        q.query(),
        "SELECT * FROM boardgame WHERE title ~ $title AND min_players <= $min_players AND \
         (players_no_limit OR max_players >= $max_players) ORDER min_players NUMERIC desc \
         LIMIT $limit START $start;"
    );
    let m = as_map(&q);
    assert_eq!(m.len(), 5);
    assert_eq!(m["title"], BindValue::Text("catan".to_string()));
    assert_eq!(m["min_players"], BindValue::Number(4));
    assert_eq!(m["max_players"], BindValue::Number(4));
    assert_eq!(m["limit"], BindValue::Number(8));
    assert_eq!(m["start"], BindValue::Number(16));
}

#[test]
fn count_with_playtime_filters() {
    let mut bq = query(8, 3);
    bq.min_playtime = Some(30);
    bq.max_playtime = Some(90);
    let q = DbQuery::count(&bq);
    assert_eq!(
        q.query(),
        "SELECT count() FROM boardgame WHERE min_playtime >= $min_playtime AND \
         max_playtime <= $max_playtime GROUP count;"
    );
    let m = as_map(&q);
    assert_eq!(m.len(), 2);
    assert_eq!(m["min_playtime"], BindValue::Number(30));
    assert_eq!(m["max_playtime"], BindValue::Number(90));
}

#[test]
fn count_and_select_share_filters() {
    let mut bq = query(5, 1);
    bq.search = Some("go".to_string());
    bq.max_playtime = Some(60);
    let mut select = as_map(&DbQuery::select(&bq));
    select.remove("limit");
    select.remove("start");
    assert_eq!(select, as_map(&DbQuery::count(&bq)));
}

#[test]
fn statement_text_does_not_hold_values() {
    let mut a = query(5, 1);
    a.search = Some("x'; DELETE boardgame; --".to_string());
    a.players = Some(2);
    let mut b = query(9, 7);
    b.search = Some("azul".to_string());
    b.players = Some(6);
    assert_eq!(DbQuery::select(&a).query(), DbQuery::select(&b).query());
    assert_eq!(DbQuery::count(&a).query(), DbQuery::count(&b).query());
    assert!(!DbQuery::select(&a).query().contains("DELETE"));
}

#[test]
fn first_page_starts_at_zero() {
    let q = DbQuery::select(&query(10, 0));
    let m = as_map(&q);
    assert_eq!(m["start"], BindValue::Number(0));
    assert_eq!(m["limit"], BindValue::Number(10));
}

#[test]
fn conditions_in_order() {
    let mut bq = query(0, 0);
    bq.max_playtime = Some(1);
    bq.search = Some("s".to_string());
    let c = generate_conditions(&bq);
    assert_eq!(c.len(), 2);
    assert_eq!(c[0].0, "title ~ $title");
    assert_eq!(c[0].1 .0, "$title");
    assert_eq!(c[1].0, "max_playtime <= $max_playtime");
    assert_eq!(c[1].1 .1, BindValue::Number(1));
}

#[test]
fn builder_chain() {
    let mut b = DbQueryBuilder::new();
    b.select("a", "b")
        .where_()
        .condition("x = $x", ("$x", BindValue::Number(1)))
        .and()
        .condition("y = $x", ("$x", BindValue::Number(2)))
        .group_by("g")
        .order_by("f", "asc")
        .paginate(3, 6);
    let q = b.build();
    assert_eq!(
        q.query(),
        "SELECT a FROM b WHERE x = $x AND y = $x GROUP g ORDER f NUMERIC asc LIMIT $limit START $start;"
    );
    let m = as_map(&q);
    assert_eq!(m.len(), 3);
    assert_eq!(m["x"], BindValue::Number(2));
    assert_eq!(m["limit"], BindValue::Number(3));
    assert_eq!(m["start"], BindValue::Number(6));
}

#[test]
fn empty_builder_builds_semicolon() {
    let q = DbQueryBuilder::new().build();
    assert_eq!(q.query(), ";");
}

#[test]
fn sort_names() {
    assert_eq!(DbQueryField::Title.to_string(), "title");
    assert_eq!(DbQueryField::MinPlayers.to_string(), "min_players");
    assert_eq!(DbQueryField::MaxPlayers.to_string(), "max_players");
    assert_eq!(DbQueryField::MinPlaytime.to_string(), "min_playtime");
    assert_eq!(DbQueryField::MaxPlaytime.to_string(), "max_playtime");
    assert_eq!(DbQueryField::Genre.to_string(), "genre");
    assert_eq!(DbQueryField::Available.to_string(), "available");
    assert_eq!(DbQuerySortDirection::ASC.to_string(), "asc");
    assert_eq!(DbQuerySortDirection::DESC.to_string(), "desc");
    assert_eq!(DbQueryField::default(), DbQueryField::Title);
    assert_eq!(DbQuerySortDirection::default(), DbQuerySortDirection::ASC);
}
