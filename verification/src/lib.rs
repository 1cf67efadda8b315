//! A board game catalog: the rules behind its web pages and JSON API.
pub mod db;
pub mod errors;
pub mod prelude;
pub mod text;
pub mod utils;
pub mod web;
