//! Errors of the catalog and how each family of them is answered.
use vstd::prelude::*;

use crate::web::responses::ErrorMessageResponse;

verus! {

/// Code of the family of errors raised before a handler decides how to answer.
pub const GEN: u8 = 0;

/// Code of the family of errors answered with HTML pages.
pub const WEB: u8 = 1;

/// Code of the family of errors answered with JSON bodies.
pub const API: u8 = 2;

/// The three families of errors.
#[derive(Debug, Clone, Copy, PartialEq, Eq, Structural)]
pub enum BGCErrorType {
    GEN,
    WEB,
    API,
}

impl BGCErrorType {
    /// The code that tags errors of this family.
    pub fn code(&self) -> (c: u8)
        ensures
            *self == BGCErrorType::GEN ==> c == GEN,
            *self == BGCErrorType::WEB ==> c == WEB,
            *self == BGCErrorType::API ==> c == API,
    {
        match self {
            BGCErrorType::GEN => GEN,
            BGCErrorType::WEB => WEB,
            BGCErrorType::API => API,
        }
    }
}

/// An error of the catalog with its message, tagged at the type level with
/// the family (`GEN`, `WEB` or `API`) that decides how it is answered.
#[derive(Debug)]
pub enum BGCError<const T: u8> {
    InternalError(String),
    UserError(String),
    Timeout(String),
    Unauthorized(String),
    NotFound(String),
}

/// The HTTP status that answers an error of each kind.
pub open spec fn status_of<const T: u8>(e: BGCError<T>) -> u16 {
    match e {
        BGCError::InternalError(_) => 500,
        BGCError::UserError(_) => 400,
        BGCError::Timeout(_) => 408,
        BGCError::Unauthorized(_) => 401,
        BGCError::NotFound(_) => 404,
    }
}

/// The same error in another family: same kind, same message.
pub open spec fn retag<const T: u8, const T2: u8>(e: BGCError<T>) -> BGCError<T2> {
    match e {
        BGCError::InternalError(m) => BGCError::InternalError(m),
        BGCError::UserError(m) => BGCError::UserError(m),
        BGCError::Timeout(m) => BGCError::Timeout(m),
        BGCError::Unauthorized(m) => BGCError::Unauthorized(m),
        BGCError::NotFound(m) => BGCError::NotFound(m),
    }
}

/// The reason phrase that the HTTP standard gives each status this catalog answers with.
pub open spec fn standard_reason(code: u16) -> Option<Seq<char>> {
    if code == 400 {
        Some("Bad Request"@)
    } else if code == 401 {
        Some("Unauthorized"@)
    } else if code == 404 {
        Some("Not Found"@)
    } else if code == 408 {
        Some("Request Timeout"@)
    } else if code == 500 {
        Some("Internal Server Error"@)
    } else {
        None
    }
}

/// What `StatusCode::canonical_reason` of actix-web gives for a status code.
pub uninterp spec fn canonical_reason_of(code: u16) -> Option<Seq<char>>;

/// The reason phrase of a status code, from actix-web's `StatusCode`
/// (`StatusCode::from_u16`, then `canonical_reason`). Claimed: the result is
/// the crate's phrase for the code, `None` for a code out of range or without
/// phrase, and for the five statuses of `standard_reason` the phrase of the
/// http crate's table. Nothing is said of other codes' phrases.
#[verifier::external_body]
fn canonical_reason(code: u16) -> (r: Option<String>)
    ensures
        r is None <==> canonical_reason_of(code) is None,
        r is Some ==> canonical_reason_of(code) == Some(r->0@),
        standard_reason(code) is Some ==> r is Some && r->0@ == standard_reason(code)->0,
{
    match actix_web::http::StatusCode::from_u16(code) {
        Ok(status) => match status.canonical_reason() {
            Some(reason) => Some(reason.to_string()),
            None => None,
        },
        Err(_) => None,
    }
}

impl<const T: u8> BGCError<T> {
    /// The message the error carries.
    pub open spec fn msg(&self) -> String {
        match self {
            BGCError::InternalError(m) => *m,
            BGCError::UserError(m) => *m,
            BGCError::Timeout(m) => *m,
            BGCError::Unauthorized(m) => *m,
            BGCError::NotFound(m) => *m,
        }
    }

    /// The message of the error, as it is displayed.
    pub fn to_string(&self) -> (s: String)
        ensures
            s == self.msg(),
    {
        match self {
            BGCError::InternalError(msg) => msg.clone(),
            BGCError::UserError(msg) => msg.clone(),
            BGCError::Timeout(msg) => msg.clone(),
            BGCError::Unauthorized(msg) => msg.clone(),
            BGCError::NotFound(msg) => msg.clone(),
        }
    }

    /// What answering the error writes to the error log: the message of an
    /// internal error, nothing for the other kinds.
    pub fn log(&self) -> (logged: Option<String>)
        ensures
            self is InternalError ==> logged == Some(self.msg()),
            !(self is InternalError) ==> logged is None,
    {
        match self {
            BGCError::InternalError(msg) => Some(msg.clone()),
            _ => None,
        }
    }

    /// The HTTP status that answers the error.
    pub fn status_code(&self) -> (code: u16)
        ensures
            code == status_of(*self),
    {
        match self {
            BGCError::InternalError(_) => 500,
            BGCError::UserError(_) => 400,
            BGCError::Timeout(_) => 408,
            BGCError::Unauthorized(_) => 401,
            BGCError::NotFound(_) => 404,
        }
    }

    /// The internal error that a bare message converts to.
    pub fn from_message(err: &str) -> (e: Self)
        ensures
            e is InternalError,
            e.msg()@ == err@,
    {
        BGCError::InternalError(err.to_string())
    }

    /// The reason phrase of the error's status.
    fn status_message(&self) -> (s: String)
        ensures
            s@ == standard_reason(status_of(*self))->0,
    {
        match canonical_reason(self.status_code()) {
            Some(reason) => reason,
            None => String::from_str("Unknown"),
        }
    }
}

/// Moves an error into another family, keeping its kind and its message.
pub fn from_generic<const T: u8, const T2: u8>(error: BGCError<T>) -> (res: BGCError<T2>)
    ensures
        res == retag::<T, T2>(error),
{
    match error {
        BGCError::InternalError(msg) => BGCError::<T2>::InternalError(msg),
        BGCError::UserError(msg) => BGCError::<T2>::UserError(msg),
        BGCError::Timeout(msg) => BGCError::<T2>::Timeout(msg),
        BGCError::Unauthorized(msg) => BGCError::<T2>::Unauthorized(msg),
        BGCError::NotFound(msg) => BGCError::<T2>::NotFound(msg),
    }
}

impl From<BGCError<GEN>> for BGCError<WEB> {
    fn from(error: BGCError<GEN>) -> (res: Self) {
        from_generic(error)
    }
}

impl vstd::std_specs::convert::FromSpecImpl<BGCError<GEN>> for BGCError<WEB> {
    open spec fn obeys_from_spec() -> bool {
        true
    }

    open spec fn from_spec(v: BGCError<GEN>) -> Self {
        retag::<GEN, WEB>(v)
    }
}

impl From<BGCError<GEN>> for BGCError<API> {
    fn from(error: BGCError<GEN>) -> (res: Self) {
        from_generic(error)
    }
}

impl vstd::std_specs::convert::FromSpecImpl<BGCError<GEN>> for BGCError<API> {
    open spec fn obeys_from_spec() -> bool {
        true
    }

    open spec fn from_spec(v: BGCError<GEN>) -> Self {
        retag::<GEN, API>(v)
    }
}

/// How an error of the HTML pages is answered.
#[derive(Debug)]
pub enum WebErrorResponse {
    /// A `302 Found` to `location`.
    Redirect { location: String },
    /// The error page, rendered with the status and its reason phrase.
    Page { status: u16, status_msg: String },
}

impl BGCError<WEB> {
    /// An unauthorized visitor is sent to the login page of `/admin`; every
    /// other error shows the error page with its status and reason phrase.
    pub fn error_response(&self) -> (r: WebErrorResponse)
        ensures
            self is Unauthorized ==> (r matches WebErrorResponse::Redirect { location }
                && location@ == "/admin"@),
            !(self is Unauthorized) ==> (r matches WebErrorResponse::Page { status, status_msg }
                && status == status_of(*self) && status_msg@ == standard_reason(
                status_of(*self),
            )->0),
    {
        match self {
            BGCError::Unauthorized(_) => WebErrorResponse::Redirect {
                location: String::from_str("/admin"),
            },
            _ => WebErrorResponse::Page {
                status: self.status_code(),
                status_msg: self.status_message(),
            },
        }
    }
}

/// How an error of the JSON API is answered: a status and a JSON message.
#[derive(Debug)]
pub struct ApiErrorResponse {
    pub status: u16,
    pub body: ErrorMessageResponse,
}

impl BGCError<API> {
    /// A user error is answered with its own message; every other error with
    /// the reason phrase of its status, so that internal details stay inside.
    pub fn error_response(&self) -> (r: ApiErrorResponse)
        ensures
            r.status == status_of(*self),
            self is UserError ==> r.body.message == self.msg(),
            !(self is UserError) ==> r.body.message@ == standard_reason(status_of(*self))->0,
    {
        match self {
            BGCError::UserError(_) => ApiErrorResponse {
                status: self.status_code(),
                body: ErrorMessageResponse { message: self.to_string() },
            },
            _ => ApiErrorResponse {
                status: self.status_code(),
                body: ErrorMessageResponse { message: self.status_message() },
            },
        }
    }
}

/// The failures of the database that the catalog tells apart.
#[derive(Debug, Clone, Copy, PartialEq, Eq, Structural)]
pub enum DbErrorKind {
    /// The query ran out of time.
    QueryTimedout,
    /// A record with the same id already exists.
    RecordExists,
    /// Any other failure of the database engine.
    Other,
}

/// The catalog error for a failure of the database engine, with its message:
/// a time-out is a time-out, a duplicate record is the user's error, and
/// anything else is internal.
pub fn extract_db_error<const T: u8>(kind: DbErrorKind, message: String) -> (e: BGCError<T>)
    ensures
        kind == DbErrorKind::QueryTimedout ==> e == BGCError::<T>::Timeout(message),
        kind == DbErrorKind::RecordExists ==> e == BGCError::<T>::UserError(message),
        kind == DbErrorKind::Other ==> e == BGCError::<T>::InternalError(message),
{
    match kind {
        DbErrorKind::QueryTimedout => BGCError::Timeout(message),
        DbErrorKind::RecordExists => BGCError::UserError(message),
        DbErrorKind::Other => BGCError::InternalError(message),
    }
}

/// The catalog error for a failure of the database client: internal, with
/// the client's message after `DB API: `.
pub fn from_db_api_error<const T: u8>(message: &str) -> (e: BGCError<T>)
    ensures
        e is InternalError,
        e.msg()@ == "DB API: "@ + message@,
{
    let mut m = String::from_str("DB API: ");
    m.append(message);
    BGCError::InternalError(m)
}

/// Moving an error to another family and back gives the same error.
pub proof fn law_retag_round_trip<const T: u8, const T2: u8>(e: BGCError<T>)
    ensures
        retag::<T2, T>(retag::<T, T2>(e)) == e,
        status_of(retag::<T, T2>(e)) == status_of(e),
        retag::<T, T2>(e).msg() == e.msg(),
{
}

} // verus!
