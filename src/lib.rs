pub mod auth;
pub mod bucket;
pub mod chunk;
pub mod errors;
pub mod oss;
pub mod resources;
pub mod sorting;
pub mod text;
pub mod upload;
