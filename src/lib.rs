pub mod errors;
pub mod graph;
pub mod infra_cache;
pub mod infra_errors;
pub mod layer;
pub mod objects;
pub mod operational_point;
pub mod routes;
pub mod signal;
