pub mod crud;
pub mod models;
pub mod query;
pub mod stats;
pub mod proc;
