//! Bodies of the JSON answers.
use vstd::prelude::*;

verus! {

/// A JSON body that carries one message.
#[derive(Debug)]
pub struct ErrorMessageResponse {
    pub message: String,
}

/// The catalog's statistics: how many board games and how many expansions.
#[derive(Debug, Clone, Copy, PartialEq, Eq, Structural)]
pub struct StatisticsResponse {
    pub boardgames: u32,
    pub expansions: u32,
}

} // verus!
