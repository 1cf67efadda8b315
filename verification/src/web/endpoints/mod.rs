pub mod admin;
pub mod api;
