//! Repository URL handling, IDE discovery ordering and launcher selection for the `af` helper.

pub mod browser;
pub mod clone;
pub mod discovery;
pub mod ides;
pub mod label;
pub mod order;
pub mod paths;
pub mod repo;
pub mod repository;
pub mod text;
