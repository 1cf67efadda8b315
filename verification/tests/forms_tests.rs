use bgcat::db::models::{BoardGame, BoardGameExpansion};
use bgcat::web::forms::{checkbox_on, remove_expansions, BGExpansionForm, BGForm, BGMultiPartForm};

fn form(titles: &[&str], deleted: &[u8]) -> BGMultiPartForm {
    BGMultiPartForm {
        title: "Catan".to_string(),
        image: None,
        min_players: 3,
        max_players: 4,
        players_no_limit: Some("on".to_string()),
        min_playtime: 60,
        max_playtime: 120,
        playtime_no_limit: None,
        available: Some("off".to_string()),
        meta_add_expansion: None,
        expansion_titles: titles.iter().map(|t| t.to_string()).collect(),
        meta_del_expansion: deleted.to_vec(),
    }
}

fn stored() -> BoardGame {
    BoardGame {
        uid: Some("catan".to_string()),
        title: "Catan".to_string(),
        image_url: "assets/catan/box.webp".to_string(),
        min_players: 3,
        max_players: 4,
        players_no_limit: false,
        min_playtime: 60,
        max_playtime: 90,
        playtime_no_limit: false,
        available: true,
        expansions: vec![BoardGameExpansion { title: "Seafarers".to_string() }],
        bgg_id: Some("13".to_string()),
    }
}

fn exp(t: &str) -> BoardGameExpansion {
    BoardGameExpansion { title: t.to_string() }
}

#[test]
fn check_boxes() {
    assert!(checkbox_on(&Some("on".to_string())));
    assert!(!checkbox_on(&Some("off".to_string())));
    assert!(!checkbox_on(&Some("ON".to_string())));
    assert!(!checkbox_on(&None));
}

#[test]
fn boardgame_from_submitted_form() {
    let bg = BoardGame::from_multipart(form(&["A", "B"], &[]));
    assert_eq!(bg.uid, None);
    assert_eq!(bg.title, "Catan");
    assert_eq!(bg.image_url, "assets/placeholder.webp");
    assert_eq!((bg.min_players, bg.max_players), (3, 4));
    assert!(bg.players_no_limit);
    assert_eq!((bg.min_playtime, bg.max_playtime), (60, 120));
    assert!(!bg.playtime_no_limit);
    assert!(!bg.available);
    assert_eq!(bg.expansions, vec![exp("A"), exp("B")]);
    assert_eq!(bg.bgg_id, None);
}

#[test]
fn form_from_submitted_form() {
    let f = BGForm::from_multipart(form(&["A"], &[]));
    assert_eq!(f.title.as_deref(), Some("Catan"));
    assert_eq!(f.image_url.as_deref(), Some(""));
    assert_eq!(f.min_players, Some(3));
    assert_eq!(f.players_no_limit, Some(true));
    assert_eq!(f.playtime_no_limit, Some(false));
    assert_eq!(f.available, Some(false));
    assert_eq!(f.expansions, vec![BGExpansionForm { title: Some("A".to_string()) }]);
}

#[test]
fn form_from_boardgame() {
    let f = BGForm::from_boardgame(stored());
    assert_eq!(f.title.as_deref(), Some("Catan"));
    assert_eq!(f.image_url.as_deref(), Some("assets/catan/box.webp"));
    assert_eq!(f.max_playtime, Some(90));
    assert_eq!(f.available, Some(true));
    assert_eq!(f.expansions, vec![BGExpansionForm { title: Some("Seafarers".to_string()) }]);
}

#[test]
fn both_form_views_agree() {
    let shown = BGForm::from_multipart(form(&["A", "B"], &[]));
    let edited = BGForm::from_boardgame(BoardGame::from_multipart(form(&["A", "B"], &[])));
    assert_eq!(shown.title, edited.title);
    assert_eq!(shown.min_players, edited.min_players);
    assert_eq!(shown.max_players, edited.max_players);
    assert_eq!(shown.players_no_limit, edited.players_no_limit);
    assert_eq!(shown.min_playtime, edited.min_playtime);
    assert_eq!(shown.max_playtime, edited.max_playtime);
    assert_eq!(shown.playtime_no_limit, edited.playtime_no_limit);
    assert_eq!(shown.available, edited.available);
    assert_eq!(shown.expansions, edited.expansions);
    assert_eq!(shown.image_url.as_deref(), Some(""));
    assert_eq!(edited.image_url.as_deref(), Some("assets/placeholder.webp"));
}

#[test]
fn blank_form() {
    let f = BGForm::blank();
    assert!(f.title.is_none() && f.image_url.is_none() && f.min_players.is_none());
    assert!(f.available.is_none() && f.expansions.is_empty());
}

#[test]
fn adding_an_expansion_row() {
    let f = BGForm::add_expansion_on_create(form(&["A"], &[]));
    assert_eq!(
        f.expansions,
        vec![BGExpansionForm { title: Some("A".to_string()) }, BGExpansionForm { title: None }]
    );
    assert_eq!(f.image_url.as_deref(), Some(""));
    let f = BGForm::add_expansion_on_update(stored(), form(&[], &[]));
    assert_eq!(f.expansions, vec![BGExpansionForm { title: None }]);
    assert_eq!(f.image_url.as_deref(), Some("assets/catan/box.webp"));
    assert_eq!(f.max_playtime, Some(120));
}

#[test]
fn new_boardgame_from_creation_form() {
    let bg = BoardGame::from_create_form(form(&[], &[]), "catan".to_string(), None);
    assert_eq!(bg.uid.as_deref(), Some("catan"));
    assert_eq!(bg.image_url, "assets/placeholder.webp");
    let bg = BoardGame::from_create_form(
        form(&[], &[]),
        "catan".to_string(),
        Some("assets/catan/x.webp".to_string()),
    );
    assert_eq!(bg.image_url, "assets/catan/x.webp");
}

#[test]
fn update_removes_marked_rows_from_the_last() {
    let bg = stored()
        .from_update_form(form(&["A", "B", "C", "D"], &[0, 2]), None)
        .unwrap();
    assert_eq!(bg.expansions, vec![exp("B"), exp("D")]);
    assert_eq!(bg.uid.as_deref(), Some("catan"));
    assert_eq!(bg.image_url, "assets/catan/box.webp");
    assert_eq!(bg.max_playtime, 120);
    assert_eq!(bg.bgg_id, None);
}

#[test]
fn update_with_new_image() {
    let bg = stored()
        .from_update_form(form(&["A"], &[]), Some("assets/catan/new.webp".to_string()))
        .unwrap();
    assert_eq!(bg.image_url, "assets/catan/new.webp");
    assert_eq!(bg.expansions, vec![exp("A")]);
}

#[test]
fn update_with_missing_row_is_refused() {
    assert!(stored().from_update_form(form(&["A", "B"], &[2]), None).is_none());
    // the last index goes first: after removing row 1 there is no row 1 left
    assert!(stored().from_update_form(form(&["A", "B"], &[1, 1]), None).is_none());
    assert!(stored().from_update_form(form(&["A", "B"], &[0, 1]), None).is_some());
}

#[test]
fn removing_rows_takes_one_per_index() {
    let titles: Vec<String> = ["a", "b", "c", "d", "e"].iter().map(|t| t.to_string()).collect();
    let titles = remove_expansions(titles, &vec![0, 0, 4]).unwrap();
    assert_eq!(titles.len(), 2);
    assert_eq!(titles, vec!["c".to_string(), "d".to_string()]);
}
