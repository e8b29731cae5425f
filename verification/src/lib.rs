pub mod anki;
pub mod app;
pub mod error;
pub mod models;
pub mod providers;
pub mod text;
