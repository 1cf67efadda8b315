//! Result types of the catalog.
use vstd::prelude::*;

use crate::errors::{BGCError, GEN};

verus! {

/// A result whose error belongs to the family `T2`.
pub type BGCResult<T, const T2: u8> = Result<T, BGCError<T2>>;

/// A result whose error has not been assigned to the pages or to the API yet.
pub type GENResult<T> = BGCResult<T, GEN>;

} // verus!
