pub mod github;
pub mod mirror;
