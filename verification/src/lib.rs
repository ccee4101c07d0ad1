//! Planning and checking of developer-environment installations.
pub mod catalog;
pub mod detection;
pub mod execution;
pub mod installer_sources;
pub mod models;
pub mod planner;
pub mod text;
