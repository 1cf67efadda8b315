pub mod endpoints;
pub mod forms;
pub mod queries;
pub mod responses;
pub mod query_string_laws;
