//! Access decisions of the JSON API.
use vstd::prelude::*;

use crate::errors::{BGCError, GEN};
use crate::prelude::GENResult;
use crate::text::eq_str;

verus! {

/// Whether a request may change the catalog through the API: when its
/// bearer token is the admin token. `bearer` is the token of the request's
/// `Authorization: Bearer` header, `None` when there is no such header.
pub fn is_authenticated(bearer: Option<&str>, admin_token: &str) -> (r: GENResult<()>)
    ensures
        (bearer is Some && bearer->0@ == admin_token@) ==> r is Ok,
        !(bearer is Some && bearer->0@ == admin_token@) ==> (r matches Err(e) && e is Unauthorized
            && e.msg()@ == "Invalid auth bearer header"@),
{
    let is_auth = match bearer {
        None => false,
        Some(token) => eq_str(token, admin_token),
    };
    if is_auth {
        Ok(())
    } else {
        Err(BGCError::Unauthorized(String::from_str("Invalid auth bearer header")))
    }
}

} // verus!
