//! Access decisions of the admin pages.
use vstd::prelude::*;

use crate::errors::{BGCError, GEN, WEB};
use crate::prelude::{BGCResult, GENResult};
use crate::text::eq_str;

verus! {

/// Whether a session may use the admin pages: when it was authenticated, or
/// when the catalog runs in debug mode. `authenticated` is what the session
/// holds under `authenticated`, if anything.
pub fn is_authenticated(authenticated: Option<bool>, debug: bool) -> (r: GENResult<bool>)
    ensures
        (authenticated == Some(true) || debug) ==> r == Ok::<bool, BGCError<GEN>>(true),
        !(authenticated == Some(true) || debug) ==> (r matches Err(e) && e is Unauthorized
            && e.msg()@ == "Invalid session"@),
{
    let result: bool = match authenticated {
        Some(b) => b,
        None => false,
    };
    if result || debug {
        Ok(true)
    } else {
        Err(BGCError::Unauthorized(String::from_str("Invalid session")))
    }
}

/// What the start page of the admin pages shows.
#[derive(Debug, Clone, Copy, PartialEq, Eq, Structural)]
pub enum AdminLanding {
    /// The listing of board games with the admin links.
    Listing,
    /// The login form.
    Login,
}

/// The start page of the admin pages shows the listing to a session that
/// was authenticated and the login form to any other; unlike the other admin
/// pages, it does not let debug mode in. `authenticated` is what the session
/// holds under `authenticated`, if anything.
pub fn admin_landing(authenticated: Option<bool>) -> (l: AdminLanding)
    ensures
        authenticated == Some(true) ==> l == AdminLanding::Listing,
        authenticated != Some(true) ==> l == AdminLanding::Login,
{
    match authenticated {
        Some(true) => AdminLanding::Listing,
        _ => AdminLanding::Login,
    }
}

/// Whether the login form opens the admin pages: when its token is the
/// admin token, or in debug mode. `Ok` means: mark the session as
/// authenticated and go to `/admin`.
pub fn auth(token: &str, admin_token: &str, debug: bool) -> (r: BGCResult<(), WEB>)
    ensures
        (token@ == admin_token@ || debug) ==> r is Ok,
        !(token@ == admin_token@ || debug) ==> (r matches Err(e) && e is Unauthorized && e.msg()@
            == "Invalid token"@),
{
    if eq_str(token, admin_token) || debug {
        Ok(())
    } else {
        Err(BGCError::Unauthorized(String::from_str("Invalid token")))
    }
}

/// A looked-up board game, or the error that answers a missing one.
pub fn require_found<T, const K: u8>(found: Option<T>) -> (r: BGCResult<T, K>)
    ensures
        found is Some ==> r == Ok::<T, BGCError<K>>(found->0),
        found is None ==> (r matches Err(e) && e is NotFound && e.msg()@
            == "Boardgame not found"@),
{
    match found {
        Some(v) => Ok(v),
        None => Err(BGCError::NotFound(String::from_str("Boardgame not found"))),
    }
}

} // verus!
