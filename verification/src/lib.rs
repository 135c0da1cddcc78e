//! Verified core of a to-do list service: the request types, the field
//! normalisation applied when requests are read, and the database filter and
//! update documents that each operation sends.

pub mod document;
pub mod ids;
pub mod types;
pub mod fields;
pub mod queries;
pub mod routes;
