use bgcat::errors::{
    extract_db_error, from_db_api_error, from_generic, BGCError, BGCErrorType, DbErrorKind,
    WebErrorResponse, API, GEN, WEB,
};
use bgcat::prelude::GENResult;

fn all(msg: &str) -> Vec<BGCError<GEN>> {
    vec![
        BGCError::InternalError(msg.to_string()),
        BGCError::UserError(msg.to_string()),
        BGCError::Timeout(msg.to_string()),
        BGCError::Unauthorized(msg.to_string()),
        BGCError::NotFound(msg.to_string()),
    ]
}

#[test]
fn status_codes() {
    let codes: Vec<u16> = all("m").iter().map(|e| e.status_code()).collect();
    assert_eq!(codes, vec![500, 400, 408, 401, 404]);
}

#[test]
fn display_is_the_message() {
    for e in all("broken thing") {
        assert_eq!(e.to_string(), "broken thing");
    }
}

#[test]
fn only_internal_errors_are_logged() {
    let logged: Vec<Option<String>> = all("m").iter().map(|e| e.log()).collect();
    assert_eq!(logged, vec![Some("m".to_string()), None, None, None, None]);
}

#[test]
fn moving_between_families_keeps_kind_and_message() {
    for e in all("x") {
        let code = e.status_code();
        let w: BGCError<WEB> = from_generic(e);
        assert_eq!(w.status_code(), code);
        assert_eq!(w.to_string(), "x");
        let back: BGCError<GEN> = from_generic(w);
        assert_eq!(back.status_code(), code);
        assert_eq!(back.to_string(), "x");
    }
}

fn fails() -> GENResult<u8> {
    Err(BGCError::NotFound("gone".to_string()))
}

fn web_handler() -> Result<u8, BGCError<WEB>> {
    Ok(fails()?)
}

fn api_handler() -> Result<u8, BGCError<API>> {
    Ok(fails()?)
}

#[test]
fn question_mark_converts_families() {
    assert!(matches!(web_handler(), Err(BGCError::NotFound(m)) if m == "gone"));
    assert!(matches!(api_handler(), Err(BGCError::NotFound(m)) if m == "gone"));
}

#[test]
fn web_errors_redirect_unauthorized_visitors() {
    let e: BGCError<WEB> = BGCError::Unauthorized("Invalid session".to_string());
    match e.error_response() {
        WebErrorResponse::Redirect { location } => assert_eq!(location, "/admin"),
        other => panic!("unexpected {:?}", other),
    }
}

#[test]
fn web_errors_show_status_and_reason() {
    let e: BGCError<WEB> = BGCError::NotFound("Boardgame not found".to_string());
    match e.error_response() {
        WebErrorResponse::Page { status, status_msg } => {
            assert_eq!(status, 404);
            assert_eq!(status_msg, "Not Found");
        }
        other => panic!("unexpected {:?}", other),
    }
    let e: BGCError<WEB> = BGCError::Timeout("t".to_string());
    match e.error_response() {
        WebErrorResponse::Page { status, status_msg } => {
            assert_eq!(status, 408);
            assert_eq!(status_msg, "Request Timeout");
        }
        other => panic!("unexpected {:?}", other),
    }
}

#[test]
fn api_errors_show_user_messages_only() {
    let e: BGCError<API> = BGCError::UserError("Bad image file size".to_string());
    let r = e.error_response();
    assert_eq!(r.status, 400);
    assert_eq!(r.body.message, "Bad image file size");
    let e: BGCError<API> = BGCError::InternalError("db password wrong".to_string());
    let r = e.error_response();
    assert_eq!(r.status, 500);
    assert_eq!(r.body.message, "Internal Server Error");
    let e: BGCError<API> = BGCError::Unauthorized("Invalid auth bearer header".to_string());
    let r = e.error_response();
    assert_eq!(r.status, 401);
    assert_eq!(r.body.message, "Unauthorized");
    let e: BGCError<API> = BGCError::NotFound("x".to_string());
    assert_eq!(e.error_response().body.message, "Not Found");
    let e: BGCError<API> = BGCError::Timeout("x".to_string());
    assert_eq!(e.error_response().body.message, "Request Timeout");
}

#[test]
fn database_failures() {
    let e: BGCError<GEN> = extract_db_error(DbErrorKind::QueryTimedout, "slow".to_string());
    assert!(matches!(e, BGCError::Timeout(m) if m == "slow"));
    let e: BGCError<GEN> = extract_db_error(DbErrorKind::RecordExists, "dup".to_string());
    assert!(matches!(e, BGCError::UserError(m) if m == "dup"));
    let e: BGCError<GEN> = extract_db_error(DbErrorKind::Other, "boom".to_string());
    assert!(matches!(e, BGCError::InternalError(m) if m == "boom"));
    let e: BGCError<GEN> = from_db_api_error("closed");
    assert!(matches!(e, BGCError::InternalError(m) if m == "DB API: closed"));
}

#[test]
fn messages_become_internal_errors() {
    let e: BGCError<GEN> = BGCError::from_message("disk full");
    assert!(matches!(e, BGCError::InternalError(m) if m == "disk full"));
}

#[test]
fn family_codes() {
    assert_eq!(BGCErrorType::GEN.code(), GEN);
    assert_eq!(BGCErrorType::WEB.code(), WEB);
    assert_eq!(BGCErrorType::API.code(), API);
    assert_eq!((GEN, WEB, API), (0, 1, 2));
}
