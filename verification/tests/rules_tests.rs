use bgcat::db::crud::{count_or_zero, generate_boardgame_uid, prepare_boardgame_create};
use bgcat::db::models::{BoardGame, Count};
use bgcat::db::proc::{local_db_start_args, wait_for_db_step};
use bgcat::db::stats::sum_counts;
use bgcat::errors::{BGCError, WEB};
use bgcat::utils::{asset_dir, image_to_save, verify_file_as_webp, ContentType, UploadedFile};
use bgcat::web::endpoints::{admin, api};

#[test]
fn uids_are_slugs_of_titles() {
    assert_eq!(generate_boardgame_uid("My Test String!!!1!1"), "my-test-string-1-1");
    assert_eq!(generate_boardgame_uid("  --test_-_cool"), "test-cool");
    assert_eq!(generate_boardgame_uid("You & Me"), "you-me");
    assert_eq!(generate_boardgame_uid("Æúű--cool?"), "aeuu-cool");
    assert_eq!(generate_boardgame_uid(""), "");
}

#[test]
fn created_boardgames_get_the_slug_of_their_title() {
    let bg = BoardGame {
        uid: Some("whatever".to_string()),
        title: "Twilight Imperium".to_string(),
        image_url: "assets/placeholder.webp".to_string(),
        min_players: 3,
        max_players: 6,
        players_no_limit: false,
        min_playtime: 240,
        max_playtime: 480,
        playtime_no_limit: false,
        available: true,
        expansions: vec![],
        bgg_id: None,
    };
    let bg = prepare_boardgame_create(bg);
    assert_eq!(bg.uid.as_deref(), Some("twilight-imperium"));
    assert_eq!(bg.max_players, 6);
}

#[test]
fn counts() {
    assert_eq!(count_or_zero(None), 0);
    assert_eq!(count_or_zero(Some(Count { count: 7 })), 7);
    assert_eq!(sum_counts(&vec![]), Some(0));
    assert_eq!(sum_counts(&vec![Count { count: 2 }, Count { count: 3 }]), Some(5));
    assert_eq!(sum_counts(&vec![Count { count: u32::MAX }, Count { count: 1 }]), None);
}

fn image(name: Option<&str>, mime: Option<(&str, &str)>, size: usize) -> UploadedFile {
    UploadedFile {
        file_name: name.map(|n| n.to_string()),
        content_type: mime.map(|(t, s)| ContentType { type_: t.to_string(), subtype: s.to_string() }),
        size,
    }
}

fn user_error(r: Result<(&str, bool), BGCError<0>>) -> String {
    match r {
        Err(BGCError::UserError(m)) => m,
        other => panic!("unexpected {:?}", other),
    }
}

#[test]
fn image_checks() {
    let f = image(Some("box.png"), Some(("image", "png")), 10);
    assert_eq!(verify_file_as_webp(&f).unwrap(), ("box.png", false));
    let f = image(Some("box.webp"), Some(("image", "webp")), 10);
    assert_eq!(verify_file_as_webp(&f).unwrap(), ("box.webp", true));
    let f = image(None, None, 0);
    assert_eq!(user_error(verify_file_as_webp(&f)), "Bad image file name");
    let f = image(Some("a"), None, 0);
    assert_eq!(user_error(verify_file_as_webp(&f)), "Bad image mime type");
    let f = image(Some("a"), Some(("image", "png")), 0);
    assert_eq!(user_error(verify_file_as_webp(&f)), "Bad image file size");
    let f = image(Some("a"), Some(("text", "plain")), 3);
    assert_eq!(user_error(verify_file_as_webp(&f)), "Bad image mime type");
}

#[test]
fn asset_folders() {
    assert_eq!(asset_dir("./data", "catan"), "./data/assets/catan");
}

#[test]
fn admin_sessions() {
    assert!(matches!(admin::is_authenticated(Some(true), false), Ok(true)));
    assert!(matches!(admin::is_authenticated(None, true), Ok(true)));
    match admin::is_authenticated(Some(false), false) {
        Err(BGCError::Unauthorized(m)) => assert_eq!(m, "Invalid session"),
        other => panic!("unexpected {:?}", other),
    }
    assert!(admin::is_authenticated(None, false).is_err());
}

#[test]
fn admin_login() {
    assert!(admin::auth("s3cret", "s3cret", false).is_ok());
    assert!(admin::auth("wrong", "s3cret", true).is_ok());
    match admin::auth("wrong", "s3cret", false) {
        Err(BGCError::Unauthorized(m)) => assert_eq!(m, "Invalid token"),
        other => panic!("unexpected {:?}", other),
    }
}

#[test]
fn api_bearer_tokens() {
    assert!(api::is_authenticated(Some("t0k"), "t0k").is_ok());
    match api::is_authenticated(Some("t0"), "t0k") {
        Err(BGCError::Unauthorized(m)) => assert_eq!(m, "Invalid auth bearer header"),
        other => panic!("unexpected {:?}", other),
    }
    assert!(api::is_authenticated(None, "t0k").is_err());
}

#[test]
fn missing_boardgames() {
    assert_eq!(admin::require_found::<u8, WEB>(Some(3)).unwrap(), 3);
    match admin::require_found::<u8, WEB>(None) {
        Err(BGCError::NotFound(m)) => assert_eq!(m, "Boardgame not found"),
        other => panic!("unexpected {:?}", other),
    }
}

#[test]
fn local_database() {
    let args = local_db_start_args("root", "pw", "./data");
    assert_eq!(
        args,
        vec!["start", "--user", "root", "--pass", "pw", "--bind", "127.0.0.1:8001", "file:./data/bgcat.db"]
    );
    assert!(matches!(wait_for_db_step(true, 100), Some(Ok(()))));
    assert!(wait_for_db_step(false, 30).is_none());
    match wait_for_db_step(false, 31) {
        Some(Err(BGCError::InternalError(m))) => {
            assert_eq!(m, "Timeout when trying to connect to local DB instance")
        }
        other => panic!("unexpected {:?}", other),
    }
}

#[test]
fn admin_start_page() {
    assert_eq!(admin::admin_landing(Some(true)), admin::AdminLanding::Listing);
    assert_eq!(admin::admin_landing(Some(false)), admin::AdminLanding::Login);
    assert_eq!(admin::admin_landing(None), admin::AdminLanding::Login);
}

fn upload(name: &str, type_: &str, subtype: &str, size: usize) -> UploadedFile {
    UploadedFile {
        file_name: Some(name.to_string()),
        content_type: Some(ContentType { type_: type_.to_string(), subtype: subtype.to_string() }),
        size,
    }
}

#[test]
fn images_to_save() {
    assert!(matches!(image_to_save(&None), Ok(None)));
    assert!(matches!(image_to_save(&Some(upload("", "image", "png", 10))), Ok(None)));
    assert!(matches!(image_to_save(&Some(upload("cover.png", "image", "png", 10))), Ok(Some(("cover.png", false)))));
    assert!(matches!(image_to_save(&Some(upload("cover.webp", "image", "webp", 10))), Ok(Some(("cover.webp", true)))));
    match image_to_save(&Some(upload("notes.txt", "text", "plain", 10))) {
        Err(e) => assert_eq!(e.to_string(), "Bad image mime type"),
        Ok(_) => panic!("a text file is no image"),
    }
    match image_to_save(&Some(upload("cover.png", "image", "png", 0))) {
        Err(e) => assert_eq!(e.to_string(), "Bad image file size"),
        Ok(_) => panic!("an empty file is no image"),
    }
}
